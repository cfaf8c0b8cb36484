use crate::error::NftError;
use crate::key::{read_key, Pubkey};
use crate::wire::{
    bool_bytes, i64_bytes, lemma_i64_bytes_injective, lemma_i64_bytes_len, lemma_text_unique, prefix_at, push_all, push_bool, push_i64, push_text,
    read_bool, read_i64, read_text, text_bytes, text_fits,
};
use vstd::prelude::*;

verus! {

/// The persisted record of one music asset.
#[derive(Clone, Debug)]
pub struct MusicNFTMetadata {
    pub artist: String,
    pub title: String,
    pub ipfs_hash: String,
    pub certificate_hash: String,
    pub timestamp: i64,
    pub is_minted: bool,
    pub creator: Pubkey,
    pub copyright_registered: bool,
    pub creation_date: i64,
}

/// The mathematical value of a record.
pub struct MetadataModel {
    pub artist: Seq<char>,
    pub title: Seq<char>,
    pub ipfs_hash: Seq<char>,
    pub certificate_hash: Seq<char>,
    pub timestamp: i64,
    pub is_minted: bool,
    pub creator: Seq<u8>,
    pub copyright_registered: bool,
    pub creation_date: i64,
}

impl MetadataModel {
    /// Every text fits its length prefix and the creator has 32 bytes.
    pub open spec fn wf(self) -> bool {
        &&& text_fits(self.artist)
        &&& text_fits(self.title)
        &&& text_fits(self.ipfs_hash)
        &&& text_fits(self.certificate_hash)
        &&& self.creator.len() == 32
    }

    /// The bytes after the four texts.
    #[verifier::opaque]
    pub open spec fn tail_bytes(self) -> Seq<u8> {
        i64_bytes(self.timestamp) + bool_bytes(self.is_minted) + self.creator + bool_bytes(
            self.copyright_registered,
        ) + i64_bytes(self.creation_date)
    }

    /// The record's encoding: the four texts, then the fixed-width fields, in
    /// declaration order.
    #[verifier::opaque]
    pub open spec fn bytes(self) -> Seq<u8> {
        text_bytes(self.artist) + text_bytes(self.title) + text_bytes(self.ipfs_hash) + text_bytes(
            self.certificate_hash,
        ) + self.tail_bytes()
    }

    /// The length of the four encoded texts.
    pub open spec fn texts_len(self) -> int {
        (text_bytes(self.artist).len() + text_bytes(self.title).len() + text_bytes(
            self.ipfs_hash,
        ).len() + text_bytes(self.certificate_hash).len()) as int
    }
}

/// Number of bytes after the four texts.
pub const TAIL_LEN: usize = 50;

impl View for MusicNFTMetadata {
    type V = MetadataModel;

    open spec fn view(&self) -> MetadataModel {
        MetadataModel {
            artist: self.artist@,
            title: self.title@,
            ipfs_hash: self.ipfs_hash@,
            certificate_hash: self.certificate_hash@,
            timestamp: self.timestamp,
            is_minted: self.is_minted,
            creator: self.creator@,
            copyright_registered: self.copyright_registered,
            creation_date: self.creation_date,
        }
    }
}

/// Where each part of an encoded record stands.
pub proof fn lemma_layout(m: MetadataModel)
    requires
        m.creator.len() == 32,
    ensures
        prefix_at(text_bytes(m.artist), m.bytes(), 0),
        prefix_at(text_bytes(m.title), m.bytes(), text_bytes(m.artist).len() as int),
        prefix_at(
            text_bytes(m.ipfs_hash),
            m.bytes(),
            (text_bytes(m.artist).len() + text_bytes(m.title).len()) as int,
        ),
        prefix_at(
            text_bytes(m.certificate_hash),
            m.bytes(),
            (text_bytes(m.artist).len() + text_bytes(m.title).len() + text_bytes(
                m.ipfs_hash,
            ).len()) as int,
        ),
        prefix_at(m.tail_bytes(), m.bytes(), m.texts_len()),
        m.bytes()[m.texts_len() + 8] == bool_bytes(m.is_minted)[0],
        m.bytes()[m.texts_len() + 41] == bool_bytes(m.copyright_registered)[0],
        m.tail_bytes().len() == TAIL_LEN,
        m.bytes().len() == m.texts_len() + TAIL_LEN,
{
    reveal(MetadataModel::bytes);
    reveal(MetadataModel::tail_bytes);
    lemma_i64_bytes_len(m.timestamp);
    lemma_i64_bytes_len(m.creation_date);
    let s1 = text_bytes(m.artist);
    let s2 = text_bytes(m.title);
    let s3 = text_bytes(m.ipfs_hash);
    let s4 = text_bytes(m.certificate_hash);
    let t = m.tail_bytes();
    let b = m.bytes();
    let l1 = s1.len() as int;
    let l2 = l1 + s2.len();
    let l3 = l2 + s3.len();
    let l4 = l3 + s4.len();
    assert(b =~= s1 + s2 + s3 + s4 + t);
    assert(b.subrange(0, l1) =~= s1);
    assert(b.subrange(l1, l2) =~= s2);
    assert(b.subrange(l2, l3) =~= s3);
    assert(b.subrange(l3, l4) =~= s4);
    assert(b.subrange(m.texts_len(), b.len() as int) =~= t);
    assert(t[8] == b[m.texts_len() + 8]);
    assert(t[41] == b[m.texts_len() + 41]);
}

/// A byte string made of the four encoded texts of `m` and then its fixed-width
/// fields is the encoding of `m`.
pub proof fn lemma_assemble(m: MetadataModel, g: Seq<u8>, at1: int, at2: int, at3: int, at4: int)
    requires
        prefix_at(text_bytes(m.artist), g, 0),
        at1 == text_bytes(m.artist).len(),
        prefix_at(text_bytes(m.title), g, at1),
        at2 == at1 + text_bytes(m.title).len(),
        prefix_at(text_bytes(m.ipfs_hash), g, at2),
        at3 == at2 + text_bytes(m.ipfs_hash).len(),
        prefix_at(text_bytes(m.certificate_hash), g, at3),
        at4 == at3 + text_bytes(m.certificate_hash).len(),
        g.len() == at4 + TAIL_LEN,
        i64_bytes(m.timestamp) == g.subrange(at4, at4 + 8),
        bool_bytes(m.is_minted) == g.subrange(at4 + 8, at4 + 9),
        m.creator == g.subrange(at4 + 9, at4 + 41),
        bool_bytes(m.copyright_registered) == g.subrange(at4 + 41, at4 + 42),
        i64_bytes(m.creation_date) == g.subrange(at4 + 42, at4 + 50),
    ensures
        m.bytes() == g,
{
    reveal(MetadataModel::bytes);
    reveal(MetadataModel::tail_bytes);
    assert(m.tail_bytes() =~= g.subrange(at4, g.len() as int));
    assert(g =~= g.subrange(0, at1) + g.subrange(at1, at2) + g.subrange(at2, at3) + g.subrange(at3, at4)
        + g.subrange(at4, g.len() as int));
    assert(m.bytes() =~= g);
}

/// Two well-formed records with the same encoding are the same record: decoding
/// the encoding of a record gives that record back.
pub proof fn lemma_round_trip(m: MetadataModel, d: MetadataModel)
    requires
        m.wf(),
        d.wf(),
        d.bytes() == m.bytes(),
    ensures
        d == m,
{
    let g = m.bytes();
    lemma_layout(m);
    lemma_layout(d);
    lemma_text_unique(m.artist, d.artist, g, 0);
    let at1 = text_bytes(m.artist).len() as int;
    lemma_text_unique(m.title, d.title, g, at1);
    let at2 = at1 + text_bytes(m.title).len();
    lemma_text_unique(m.ipfs_hash, d.ipfs_hash, g, at2);
    let at3 = at2 + text_bytes(m.ipfs_hash).len();
    lemma_text_unique(m.certificate_hash, d.certificate_hash, g, at3);
    let t = m.tail_bytes();
    assert(d.tail_bytes() == t);
    reveal(MetadataModel::tail_bytes);
    lemma_i64_bytes_len(m.timestamp);
    lemma_i64_bytes_len(d.timestamp);
    lemma_i64_bytes_len(m.creation_date);
    lemma_i64_bytes_len(d.creation_date);
    assert(i64_bytes(m.timestamp) =~= t.subrange(0, 8));
    assert(i64_bytes(d.timestamp) =~= t.subrange(0, 8));
    lemma_i64_bytes_injective(m.timestamp, d.timestamp);
    assert(i64_bytes(m.creation_date) =~= t.subrange(42, 50));
    assert(i64_bytes(d.creation_date) =~= t.subrange(42, 50));
    lemma_i64_bytes_injective(m.creation_date, d.creation_date);
    assert(m.creator =~= t.subrange(9, 41));
    assert(d.creator =~= t.subrange(9, 41));
    assert(t[8] == bool_bytes(m.is_minted)[0]);
    assert(t[8] == bool_bytes(d.is_minted)[0]);
    assert(t[41] == bool_bytes(m.copyright_registered)[0]);
    assert(t[41] == bool_bytes(d.copyright_registered)[0]);
}

impl MusicNFTMetadata {
    /// The record's bytes, as they are stored in its account.
    pub fn encode(&self) -> (r: Vec<u8>)
        requires
            self@.wf(),
        ensures
            r@ == self@.bytes(),
    {
        let mut out: Vec<u8> = Vec::new();
        push_text(&mut out, self.artist.as_str());
        push_text(&mut out, self.title.as_str());
        push_text(&mut out, self.ipfs_hash.as_str());
        push_text(&mut out, self.certificate_hash.as_str());
        push_i64(&mut out, self.timestamp);
        push_bool(&mut out, self.is_minted);
        push_all(&mut out, self.creator.bytes.as_slice());
        push_bool(&mut out, self.copyright_registered);
        push_i64(&mut out, self.creation_date);
        proof {
            reveal(MetadataModel::bytes);
            reveal(MetadataModel::tail_bytes);
            assert(out@ =~= self@.bytes());
        }
        out
    }

    /// The record that `b` encodes; `MalformedRecord` exactly when `b` is the
    /// encoding of no record.
    #[verifier::rlimit(50)]
    pub fn decode(b: &[u8]) -> (r: Result<MusicNFTMetadata, NftError>)
        ensures
            match r {
                Ok(m) => {
                    &&& m@.wf()
                    &&& m@.bytes() == b@
                    &&& forall|d: MetadataModel| d.wf() && #[trigger] d.bytes() == b@ ==> d == m@
                },
                Err(e) => e == NftError::MalformedRecord && forall|m: MetadataModel|
                    m.wf() ==> #[trigger] m.bytes() != b@,
            },
    {
        let ghost g = b@;
        let (artist, at1) = match read_text(b, 0) {
            Some(x) => x,
            None => {
                assert forall|m: MetadataModel| m.wf() implies #[trigger] m.bytes() != g by {
                    lemma_layout(m);
                }
                return Err(NftError::MalformedRecord);
            },
        };
        let (title, at2) = match read_text(b, at1) {
            Some(x) => x,
            None => {
                assert forall|m: MetadataModel| m.wf() implies #[trigger] m.bytes() != g by {
                    lemma_layout(m);
                }
                return Err(NftError::MalformedRecord);
            },
        };
        let (ipfs_hash, at3) = match read_text(b, at2) {
            Some(x) => x,
            None => {
                assert forall|m: MetadataModel| m.wf() implies #[trigger] m.bytes() != g by {
                    lemma_layout(m);
                }
                return Err(NftError::MalformedRecord);
            },
        };
        let (certificate_hash, at4) = match read_text(b, at3) {
            Some(x) => x,
            None => {
                assert forall|m: MetadataModel| m.wf() implies #[trigger] m.bytes() != g by {
                    lemma_layout(m);
                }
                return Err(NftError::MalformedRecord);
            },
        };
        if b.len() - at4 != TAIL_LEN {
            assert forall|m: MetadataModel| m.wf() implies #[trigger] m.bytes() != g by {
                lemma_layout(m);
            }
            return Err(NftError::MalformedRecord);
        }
        let timestamp = read_i64(b, at4);
        let is_minted = match read_bool(b, at4 + 8) {
            Some(v) => v,
            None => {
                assert forall|m: MetadataModel| m.wf() implies #[trigger] m.bytes() != g by {
                    lemma_layout(m);
                }
                return Err(NftError::MalformedRecord);
            },
        };
        let creator = read_key(b, at4 + 9);
        let copyright_registered = match read_bool(b, at4 + 41) {
            Some(v) => v,
            None => {
                assert forall|m: MetadataModel| m.wf() implies #[trigger] m.bytes() != g by {
                    lemma_layout(m);
                }
                return Err(NftError::MalformedRecord);
            },
        };
        let creation_date = read_i64(b, at4 + 42);
        let m = MusicNFTMetadata {
            artist,
            title,
            ipfs_hash,
            certificate_hash,
            timestamp,
            is_minted,
            creator,
            copyright_registered,
            creation_date,
        };
        proof {
            lemma_assemble(m@, g, at1 as int, at2 as int, at3 as int, at4 as int);
            assert forall|d: MetadataModel| d.wf() && #[trigger] d.bytes() == g implies d == m@ by {
                lemma_round_trip(m@, d);
            }
        }
        Ok(m)
    }
}

} // verus!
