use music_nft::error::NftError;
use music_nft::key::Pubkey;
use music_nft::record::MusicNFTMetadata;

fn sample() -> MusicNFTMetadata {
    MusicNFTMetadata {
        artist: "Café Ñandú".to_string(),
        title: "Song".to_string(),
        ipfs_hash: "QmHash".to_string(),
        certificate_hash: String::new(),
        timestamp: -5,
        is_minted: true,
        creator: Pubkey::new_from_array([0xAB; 32]),
        copyright_registered: false,
        creation_date: i64::MAX,
    }
}

fn same(a: &MusicNFTMetadata, b: &MusicNFTMetadata) -> bool {
    a.artist == b.artist
        && a.title == b.title
        && a.ipfs_hash == b.ipfs_hash
        && a.certificate_hash == b.certificate_hash
        && a.timestamp == b.timestamp
        && a.is_minted == b.is_minted
        && a.creator == b.creator
        && a.copyright_registered == b.copyright_registered
        && a.creation_date == b.creation_date
}

#[test]
fn round_trip() {
    let r = sample();
    let back = MusicNFTMetadata::decode(&r.encode()).unwrap();
    assert!(same(&r, &back));
}

#[test]
fn layout_matches_borsh() {
    let r = sample();
    let expected = borsh::to_vec(&(
        r.artist.clone(),
        r.title.clone(),
        r.ipfs_hash.clone(),
        r.certificate_hash.clone(),
        r.timestamp,
        r.is_minted,
        r.creator.to_bytes(),
        r.copyright_registered,
        r.creation_date,
    ))
    .unwrap();
    assert_eq!(r.encode(), expected);
}

#[test]
fn exact_bytes_of_small_record() {
    let r = MusicNFTMetadata {
        artist: "A".to_string(),
        title: String::new(),
        ipfs_hash: String::new(),
        certificate_hash: String::new(),
        timestamp: 1,
        is_minted: false,
        creator: Pubkey::new_from_array([2; 32]),
        copyright_registered: true,
        creation_date: -1,
    };
    let mut expected = vec![1, 0, 0, 0, b'A', 0, 0, 0, 0, 0, 0, 0, 0, 0, 0, 0, 0];
    expected.extend_from_slice(&[1, 0, 0, 0, 0, 0, 0, 0]);
    expected.push(0);
    expected.extend_from_slice(&[2; 32]);
    expected.push(1);
    expected.extend_from_slice(&[0xFF; 8]);
    assert_eq!(r.encode(), expected);
    assert_eq!(expected.len(), 5 + 12 + 50);
}

#[test]
fn multibyte_text_is_utf8_length_prefixed() {
    let mut r = sample();
    r.artist = "é".to_string();
    let bytes = r.encode();
    assert_eq!(&bytes[..6], &[2, 0, 0, 0, 0xC3, 0xA9]);
}

#[test]
fn truncated_record_is_malformed() {
    let bytes = sample().encode();
    for cut in [0, 3, 10, bytes.len() - 1] {
        assert_eq!(
            MusicNFTMetadata::decode(&bytes[..cut]).err(),
            Some(NftError::MalformedRecord)
        );
    }
}

#[test]
fn trailing_byte_is_malformed() {
    let mut bytes = sample().encode();
    bytes.push(0);
    assert_eq!(MusicNFTMetadata::decode(&bytes).err(), Some(NftError::MalformedRecord));
}

#[test]
fn bad_flag_byte_is_malformed() {
    let r = sample();
    let mut bytes = r.encode();
    let flag = bytes.len() - 50 + 8;
    bytes[flag] = 2;
    assert_eq!(MusicNFTMetadata::decode(&bytes).err(), Some(NftError::MalformedRecord));
}

#[test]
fn invalid_utf8_is_malformed() {
    let bytes = vec![1, 0, 0, 0, 0xFF];
    let mut all = bytes.clone();
    all.extend_from_slice(&[0; 12]);
    all.extend_from_slice(&[0; 50]);
    assert_eq!(MusicNFTMetadata::decode(&all).err(), Some(NftError::MalformedRecord));
    let mut ok = vec![1, 0, 0, 0, b'x'];
    ok.extend_from_slice(&[0; 12]);
    ok.extend_from_slice(&[0; 50]);
    let r = MusicNFTMetadata::decode(&ok).unwrap();
    assert_eq!(r.artist, "x");
    assert_eq!(r.creator, Pubkey::new_from_array([0; 32]));
}

#[test]
fn pubkey_equality() {
    let a = Pubkey::new_from_array([1; 32]);
    let mut bytes = [1; 32];
    bytes[31] = 2;
    assert_ne!(a, Pubkey::new_from_array(bytes));
    assert_eq!(a, Pubkey::new_from_array([1; 32]));
}
