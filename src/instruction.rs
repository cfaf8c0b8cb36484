use crate::error::NftError;
use crate::key::{read_key, Pubkey};
use crate::wire::{lemma_texts4_layout, prefix_at, read_texts4, text_fits, texts4_bytes};
use vstd::prelude::*;

verus! {

/// One operation on a record, as the caller's payload names it.
#[derive(Clone, Debug)]
pub enum MusicNFTInstruction {
    /// Create the record.
    InitializeMusicNFT {
        title: String,
        artist: String,
        ipfs_hash: String,
        certificate_hash: String,
    },
    /// Mark the record minted; the byte only serves to derive the account's address.
    MintNFT { nft_account_bump: u8 },
    /// Mark the record's copyright registered; the byte is unused as for minting.
    RegisterCopyright { nft_account_bump: u8 },
    /// Hand control of the record to `new_owner`.
    TransferNFT { new_owner: Pubkey },
}

/// The mathematical value of an instruction.
pub enum InstructionModel {
    InitializeMusicNFT {
        title: Seq<char>,
        artist: Seq<char>,
        ipfs_hash: Seq<char>,
        certificate_hash: Seq<char>,
    },
    MintNFT { nft_account_bump: u8 },
    RegisterCopyright { nft_account_bump: u8 },
    TransferNFT { new_owner: Seq<u8> },
}

impl InstructionModel {
    /// Every text fits its length prefix and an identifier has 32 bytes.
    pub open spec fn wf(self) -> bool {
        match self {
            InstructionModel::InitializeMusicNFT { title, artist, ipfs_hash, certificate_hash } => {
                text_fits(title) && text_fits(artist) && text_fits(ipfs_hash) && text_fits(
                    certificate_hash,
                )
            },
            InstructionModel::TransferNFT { new_owner } => new_owner.len() == 32,
            _ => true,
        }
    }

    /// The payload: a tag byte (0 to 3 in declaration order), then the
    /// operation's fields.
    pub open spec fn bytes(self) -> Seq<u8> {
        match self {
            InstructionModel::InitializeMusicNFT { title, artist, ipfs_hash, certificate_hash } => {
                seq![0u8] + texts4_bytes(title, artist, ipfs_hash, certificate_hash)
            },
            InstructionModel::MintNFT { nft_account_bump } => seq![1u8, nft_account_bump],
            InstructionModel::RegisterCopyright { nft_account_bump } => seq![
                2u8,
                nft_account_bump,
            ],
            InstructionModel::TransferNFT { new_owner } => seq![3u8] + new_owner,
        }
    }
}

impl View for MusicNFTInstruction {
    type V = InstructionModel;

    open spec fn view(&self) -> InstructionModel {
        match self {
            MusicNFTInstruction::InitializeMusicNFT {
                title,
                artist,
                ipfs_hash,
                certificate_hash,
            } => InstructionModel::InitializeMusicNFT {
                title: title@,
                artist: artist@,
                ipfs_hash: ipfs_hash@,
                certificate_hash: certificate_hash@,
            },
            MusicNFTInstruction::MintNFT { nft_account_bump } => InstructionModel::MintNFT {
                nft_account_bump: *nft_account_bump,
            },
            MusicNFTInstruction::RegisterCopyright { nft_account_bump } => {
                InstructionModel::RegisterCopyright { nft_account_bump: *nft_account_bump }
            },
            MusicNFTInstruction::TransferNFT { new_owner } => InstructionModel::TransferNFT {
                new_owner: new_owner@,
            },
        }
    }
}

impl MusicNFTInstruction {
    /// The instruction that `data` encodes; `InvalidPayload` exactly when `data`
    /// is the encoding of no instruction.
    pub fn decode(data: &[u8]) -> (r: Result<MusicNFTInstruction, NftError>)
        ensures
            match r {
                Ok(i) => {
                    &&& i@.wf()
                    &&& i@.bytes() == data@
                    &&& forall|j: InstructionModel|
                        j.wf() && #[trigger] j.bytes() == data@ ==> j == i@
                },
                Err(e) => e == NftError::InvalidPayload && forall|j: InstructionModel|
                    j.wf() ==> #[trigger] j.bytes() != data@,
            },
    {
        let ghost g = data@;
        let len = data.len();
        if len == 0 {
            return Err(NftError::InvalidPayload);
        }
        let tag = data[0];
        if tag == 0 {
            match read_texts4(data, 1) {
                Some((title, artist, ipfs_hash, certificate_hash, end)) => {
                    if end != len {
                        assert forall|j: InstructionModel| j.wf() implies #[trigger] j.bytes()
                            != g by {
                            if j.bytes() == g {
                                if let InstructionModel::InitializeMusicNFT {
                                    title: t,
                                    artist: a,
                                    ipfs_hash: h,
                                    certificate_hash: c,
                                } = j {
                                    assert(g.subrange(1, g.len() as int) =~= texts4_bytes(
                                        t,
                                        a,
                                        h,
                                        c,
                                    ));
                                    assert(prefix_at(texts4_bytes(t, a, h, c), g, 1));
                                }
                            }
                        }
                        return Err(NftError::InvalidPayload);
                    }
                    let r = MusicNFTInstruction::InitializeMusicNFT {
                        title,
                        artist,
                        ipfs_hash,
                        certificate_hash,
                    };
                    proof {
                        assert(g =~= r@.bytes());
                        assert forall|j: InstructionModel|
                            j.wf() && #[trigger] j.bytes() == g implies j == r@ by {
                            if let InstructionModel::InitializeMusicNFT {
                                title: t,
                                artist: a,
                                ipfs_hash: h,
                                certificate_hash: c,
                            } = j {
                                assert(g.subrange(1, g.len() as int) =~= texts4_bytes(t, a, h, c));
                                assert(prefix_at(texts4_bytes(t, a, h, c), g, 1));
                            }
                        }
                    }
                    Ok(r)
                },
                None => {
                    assert forall|j: InstructionModel| j.wf() implies #[trigger] j.bytes()
                        != g by {
                        if j.bytes() == g {
                            if let InstructionModel::InitializeMusicNFT {
                                title: t,
                                artist: a,
                                ipfs_hash: h,
                                certificate_hash: c,
                            } = j {
                                assert(g.subrange(1, g.len() as int) =~= texts4_bytes(t, a, h, c));
                                assert(prefix_at(texts4_bytes(t, a, h, c), g, 1));
                            }
                        }
                    }
                    Err(NftError::InvalidPayload)
                },
            }
        } else if tag == 1 || tag == 2 {
            if len != 2 {
                return Err(NftError::InvalidPayload);
            }
            let bump = data[1];
            let r = if tag == 1 {
                MusicNFTInstruction::MintNFT { nft_account_bump: bump }
            } else {
                MusicNFTInstruction::RegisterCopyright { nft_account_bump: bump }
            };
            assert(g =~= r@.bytes());
            Ok(r)
        } else if tag == 3 {
            if len != 33 {
                return Err(NftError::InvalidPayload);
            }
            let new_owner = read_key(data, 1);
            let r = MusicNFTInstruction::TransferNFT { new_owner };
            assert(g =~= r@.bytes());
            proof {
                assert forall|j: InstructionModel|
                    j.wf() && #[trigger] j.bytes() == g implies j == r@ by {
                    if let InstructionModel::TransferNFT { new_owner: k } = j {
                        assert(k =~= g.subrange(1, 33));
                    }
                }
            }
            Ok(r)
        } else {
            Err(NftError::InvalidPayload)
        }
    }
}

} // verus!
