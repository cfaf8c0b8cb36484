use music_nft::error::NftError;
use music_nft::instruction::MusicNFTInstruction;
use music_nft::key::Pubkey;
use music_nft::program::{process_instruction, Account, Effect};
use music_nft::record::MusicNFTMetadata;

const NOW: i64 = 1_700_000_000;

fn key(b: u8) -> Pubkey {
    Pubkey::new_from_array([b; 32])
}

fn account(k: Pubkey, is_signer: bool) -> Account {
    Account { key: k, is_signer, data: Vec::new() }
}

fn init_payload(title: &str, artist: &str, ipfs: &str, cert: &str) -> Vec<u8> {
    borsh::to_vec(&(
        0u8,
        title.to_string(),
        artist.to_string(),
        ipfs.to_string(),
        cert.to_string(),
    ))
    .unwrap()
}

fn transfer_payload(to: Pubkey) -> Vec<u8> {
    borsh::to_vec(&(3u8, to.to_bytes())).unwrap()
}

/// Runs one instruction against the accounts, applying its effect to the
/// record account as the host would.
fn run(accounts: &mut Vec<Account>, payload: &[u8]) -> Result<(), NftError> {
    match process_instruction(accounts, payload, NOW)? {
        Effect::Create { data } => accounts[1].data = data,
        Effect::Store { data } => accounts[1].data = data,
    }
    Ok(())
}

fn record(accounts: &[Account]) -> MusicNFTMetadata {
    MusicNFTMetadata::decode(&accounts[1].data).unwrap()
}

fn initialized(creator: Pubkey) -> Vec<Account> {
    let mut accounts = vec![account(creator, true), account(key(200), false), account(key(0), false)];
    run(&mut accounts, &init_payload("Song", "A", "cid1", "cert1")).unwrap();
    accounts
}

fn as_signer(accounts: &[Account], who: Pubkey) -> Vec<Account> {
    vec![account(who, true), accounts[1].clone()]
}

#[test]
fn initialize_creates_unminted_record() {
    let s = key(7);
    let accounts = initialized(s);
    let r = record(&accounts);
    assert_eq!(r.title, "Song");
    assert_eq!(r.artist, "A");
    assert_eq!(r.ipfs_hash, "cid1");
    assert_eq!(r.certificate_hash, "cert1");
    assert!(!r.is_minted);
    assert!(!r.copyright_registered);
    assert_eq!(r.creator, s);
    assert_eq!(r.timestamp, NOW);
    assert_eq!(r.creation_date, NOW);
}

#[test]
fn initialize_returns_create_effect_of_exact_size() {
    let s = key(7);
    let accounts = vec![account(s, true), account(key(200), false), account(key(0), false)];
    let payload = init_payload("Song", "A", "cid1", "cert1");
    match process_instruction(&accounts, &payload, NOW) {
        Ok(Effect::Create { data }) => {
            // 4 + 4 + 4 + 1 + 4 + 4 + 4 + 5 bytes of texts, then 50 fixed bytes.
            assert_eq!(data.len(), 30 + 50);
        }
        other => panic!("unexpected outcome {:?}", other),
    }
}

#[test]
fn mint_then_mint_again_fails() {
    let s = key(7);
    let mut accounts = as_signer(&initialized(s), s);
    run(&mut accounts, &[1, 0]).unwrap();
    assert!(record(&accounts).is_minted);
    let before = accounts[1].data.clone();
    assert_eq!(run(&mut accounts, &[1, 0]), Err(NftError::AlreadyMinted));
    assert_eq!(accounts[1].data, before);
    assert!(record(&accounts).is_minted);
}

#[test]
fn register_after_mint_then_again_fails() {
    let s = key(7);
    let mut accounts = as_signer(&initialized(s), s);
    run(&mut accounts, &[1, 0]).unwrap();
    run(&mut accounts, &[2, 0]).unwrap();
    assert!(record(&accounts).copyright_registered);
    assert_eq!(run(&mut accounts, &[2, 0]), Err(NftError::AlreadyRegistered));
    assert!(record(&accounts).copyright_registered);
}

#[test]
fn transfer_moves_control() {
    let s = key(7);
    let t = key(9);
    let mut accounts = as_signer(&initialized(s), s);
    run(&mut accounts, &[1, 0]).unwrap();
    run(&mut accounts, &[2, 0]).unwrap();
    run(&mut accounts, &transfer_payload(t)).unwrap();
    assert_eq!(record(&accounts).creator, t);
    assert_eq!(run(&mut accounts, &transfer_payload(s)), Err(NftError::NotCreator));
    let mut by_t = as_signer(&accounts, t);
    run(&mut by_t, &transfer_payload(s)).unwrap();
    assert_eq!(record(&by_t).creator, s);
    assert!(record(&by_t).is_minted);
    assert!(record(&by_t).copyright_registered);
}

#[test]
fn mint_by_other_signer_fails() {
    let s = key(7);
    let b = key(8);
    let mut accounts = as_signer(&initialized(s), b);
    assert_eq!(run(&mut accounts, &[1, 0]), Err(NftError::NotCreator));
    assert!(!record(&accounts).is_minted);
}

#[test]
fn other_signer_cannot_register_or_transfer() {
    let s = key(7);
    let b = key(8);
    let mut accounts = as_signer(&initialized(s), s);
    run(&mut accounts, &[1, 0]).unwrap();
    let mut by_b = as_signer(&accounts, b);
    let before = by_b[1].data.clone();
    assert_eq!(run(&mut by_b, &[2, 0]), Err(NftError::NotCreator));
    assert_eq!(run(&mut by_b, &transfer_payload(b)), Err(NftError::NotCreator));
    assert_eq!(by_b[1].data, before);
}

#[test]
fn register_before_mint_fails_for_anyone() {
    let s = key(7);
    let mut accounts = as_signer(&initialized(s), s);
    assert_eq!(run(&mut accounts, &[2, 0]), Err(NftError::NotYetMinted));
    let mut by_b = as_signer(&accounts, key(8));
    assert_eq!(run(&mut by_b, &[2, 0]), Err(NftError::NotYetMinted));
    assert!(!record(&accounts).copyright_registered);
}

#[test]
fn transfer_before_mint_fails() {
    let s = key(7);
    let mut accounts = as_signer(&initialized(s), s);
    assert_eq!(run(&mut accounts, &transfer_payload(key(9))), Err(NftError::NotYetMinted));
}

#[test]
fn transfer_to_self_is_allowed() {
    let s = key(7);
    let mut accounts = as_signer(&initialized(s), s);
    run(&mut accounts, &[1, 0]).unwrap();
    run(&mut accounts, &transfer_payload(s)).unwrap();
    assert_eq!(record(&accounts).creator, s);
}

#[test]
fn unsigned_caller_is_unauthorized() {
    let s = key(7);
    let mut init = vec![account(s, false), account(key(200), false), account(key(0), false)];
    assert_eq!(
        run(&mut init, &init_payload("Song", "A", "cid1", "cert1")),
        Err(NftError::Unauthorized)
    );
    let mut accounts = initialized(s);
    accounts.truncate(2);
    accounts[0].is_signer = false;
    assert_eq!(run(&mut accounts, &[1, 0]), Err(NftError::Unauthorized));
    assert_eq!(run(&mut accounts, &[2, 0]), Err(NftError::Unauthorized));
    assert_eq!(run(&mut accounts, &transfer_payload(key(9))), Err(NftError::Unauthorized));
}

#[test]
fn too_few_accounts() {
    let s = key(7);
    let mut two = vec![account(s, true), account(key(200), false)];
    assert_eq!(
        run(&mut two, &init_payload("Song", "A", "cid1", "cert1")),
        Err(NftError::MissingAccount)
    );
    let one = vec![account(s, true)];
    assert_eq!(process_instruction(&one, &[1, 0], NOW).err(), Some(NftError::MissingAccount));
}

#[test]
fn malformed_record_account() {
    let s = key(7);
    let mut accounts = vec![account(s, true), account(key(200), false)];
    accounts[1].data = vec![1, 2, 3];
    assert_eq!(run(&mut accounts, &[1, 0]), Err(NftError::MalformedRecord));
}

#[test]
fn invalid_payloads() {
    let s = key(7);
    let accounts = initialized(s);
    for payload in [vec![], vec![4], vec![1], vec![1, 0, 0], vec![3, 1, 2], vec![0, 1, 0, 0]] {
        assert_eq!(
            process_instruction(&accounts, &payload, NOW).err(),
            Some(NftError::InvalidPayload)
        );
    }
    let mut long = init_payload("Song", "A", "cid1", "cert1");
    long.push(0);
    assert_eq!(MusicNFTInstruction::decode(&long).err(), Some(NftError::InvalidPayload));
}

#[test]
fn instruction_decoding() {
    match MusicNFTInstruction::decode(&init_payload("t", "a", "h", "c")).unwrap() {
        MusicNFTInstruction::InitializeMusicNFT { title, artist, ipfs_hash, certificate_hash } => {
            assert_eq!((title.as_str(), artist.as_str()), ("t", "a"));
            assert_eq!((ipfs_hash.as_str(), certificate_hash.as_str()), ("h", "c"));
        }
        other => panic!("unexpected {:?}", other),
    }
    assert!(matches!(
        MusicNFTInstruction::decode(&[1, 5]),
        Ok(MusicNFTInstruction::MintNFT { nft_account_bump: 5 })
    ));
    assert!(matches!(
        MusicNFTInstruction::decode(&[2, 6]),
        Ok(MusicNFTInstruction::RegisterCopyright { nft_account_bump: 6 })
    ));
    match MusicNFTInstruction::decode(&transfer_payload(key(3))).unwrap() {
        MusicNFTInstruction::TransferNFT { new_owner } => assert_eq!(new_owner, key(3)),
        other => panic!("unexpected {:?}", other),
    }
}
