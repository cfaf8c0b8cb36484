use crate::error::NftError;
use crate::instruction::{InstructionModel, MusicNFTInstruction};
use crate::key::Pubkey;
use crate::record::{lemma_round_trip, MetadataModel, MusicNFTMetadata};
use crate::wire::text_fits;
use vstd::prelude::*;

verus! {

/// One account handed in by the host: its identifier, whether it signed the
/// transaction, and the bytes it stores.
#[derive(Clone, Debug)]
pub struct Account {
    pub key: Pubkey,
    pub is_signer: bool,
    pub data: Vec<u8>,
}

/// What the host must do to the record account (the second account) once an
/// instruction succeeds.
#[derive(Clone, Debug)]
pub enum Effect {
    /// Create the account with exactly `data.len()` bytes, funded by the first
    /// account and owned by this program, then store `data` in it.
    Create { data: Vec<u8> },
    /// Store `data` over the account's bytes.
    Store { data: Vec<u8> },
}

/// The record that `d` encodes, if any.
pub open spec fn decoded(d: Seq<u8>) -> Option<MetadataModel> {
    if exists|m: MetadataModel| m.wf() && m.bytes() == d {
        Some(choose|m: MetadataModel| m.wf() && m.bytes() == d)
    } else {
        None
    }
}

/// Minting: only an unminted record, only by its creator.
pub open spec fn mint_rule(m: MetadataModel, signer: Seq<u8>) -> Result<MetadataModel, NftError> {
    if m.is_minted {
        Err(NftError::AlreadyMinted)
    } else if m.creator != signer {
        Err(NftError::NotCreator)
    } else {
        Ok(MetadataModel { is_minted: true, ..m })
    }
}

/// Registering the copyright: only a minted record, only by its controller, only once.
pub open spec fn register_rule(m: MetadataModel, signer: Seq<u8>) -> Result<
    MetadataModel,
    NftError,
> {
    if !m.is_minted {
        Err(NftError::NotYetMinted)
    } else if m.creator != signer {
        Err(NftError::NotCreator)
    } else if m.copyright_registered {
        Err(NftError::AlreadyRegistered)
    } else {
        Ok(MetadataModel { copyright_registered: true, ..m })
    }
}

/// Transferring: only a minted record, only by its controller.
pub open spec fn transfer_rule(m: MetadataModel, signer: Seq<u8>, new_owner: Seq<u8>) -> Result<
    MetadataModel,
    NftError,
> {
    if !m.is_minted {
        Err(NftError::NotYetMinted)
    } else if m.creator != signer {
        Err(NftError::NotCreator)
    } else {
        Ok(MetadataModel { creator: new_owner, ..m })
    }
}

/// The outcome of an update of the record stored as `data`, by an account that
/// did or did not sign: the bytes to store back, or the error.
pub open spec fn update_outcome(
    signed: bool,
    data: Seq<u8>,
    rule: spec_fn(MetadataModel) -> Result<MetadataModel, NftError>,
) -> Result<Seq<u8>, NftError> {
    if !signed {
        Err(NftError::Unauthorized)
    } else {
        match decoded(data) {
            None => Err(NftError::MalformedRecord),
            Some(m) => match rule(m) {
                Ok(n) => Ok(n.bytes()),
                Err(e) => Err(e),
            },
        }
    }
}

/// The bytes held by a result, as a sequence.
pub open spec fn bytes_of(r: Result<Vec<u8>, NftError>) -> Result<Seq<u8>, NftError> {
    match r {
        Ok(v) => Ok(v@),
        Err(e) => Err(e),
    }
}

/// A freshly created record.
pub open spec fn new_record(
    title: Seq<char>,
    artist: Seq<char>,
    ipfs_hash: Seq<char>,
    certificate_hash: Seq<char>,
    creator: Seq<u8>,
    now: i64,
) -> MetadataModel {
    MetadataModel {
        artist,
        title,
        ipfs_hash,
        certificate_hash,
        timestamp: now,
        is_minted: false,
        creator,
        copyright_registered: false,
        creation_date: now,
    }
}

/// Decodes the record stored as `data`.
fn load(data: &Vec<u8>) -> (r: Result<MusicNFTMetadata, NftError>)
    ensures
        match decoded(data@) {
            None => r == Err::<MusicNFTMetadata, NftError>(NftError::MalformedRecord),
            Some(m) => (r matches Ok(x) && x@ == m && x@.wf()),
        },
{
    let r = MusicNFTMetadata::decode(data.as_slice());
    proof {
        if let Ok(x) = &r {
            assert(x@.wf() && x@.bytes() == data@);
            let m = choose|m: MetadataModel| m.wf() && m.bytes() == data@;
            lemma_round_trip(x@, m);
        }
    }
    r
}

/// Creates a record for the first account, which must have signed; the record
/// account is the second, the system allocator the third.
pub fn initialize_music_nft(
    accounts: &[Account],
    title: String,
    artist: String,
    ipfs_hash: String,
    certificate_hash: String,
    now: i64,
) -> (r: Result<Vec<u8>, NftError>)
    requires
        text_fits(title@),
        text_fits(artist@),
        text_fits(ipfs_hash@),
        text_fits(certificate_hash@),
    ensures
        accounts@.len() < 3 ==> r == Err::<Vec<u8>, NftError>(NftError::MissingAccount),
        accounts@.len() >= 3 && !accounts@[0].is_signer ==> r == Err::<Vec<u8>, NftError>(
            NftError::Unauthorized,
        ),
        accounts@.len() >= 3 && accounts@[0].is_signer ==> (r matches Ok(v) && v@ == new_record(
            title@,
            artist@,
            ipfs_hash@,
            certificate_hash@,
            accounts@[0].key@,
            now,
        ).bytes()),
{
    if accounts.len() < 3 {
        return Err(NftError::MissingAccount);
    }
    let initializer = &accounts[0];
    if !initializer.is_signer {
        return Err(NftError::Unauthorized);
    }
    let metadata = MusicNFTMetadata {
        artist,
        title,
        ipfs_hash,
        certificate_hash,
        timestamp: now,
        is_minted: false,
        creator: initializer.key,
        copyright_registered: false,
        creation_date: now,
    };
    Ok(metadata.encode())
}

/// Mints the record held by the second account, on behalf of the first.
pub fn mint_nft(accounts: &[Account]) -> (r: Result<Vec<u8>, NftError>)
    ensures
        accounts@.len() < 2 ==> r == Err::<Vec<u8>, NftError>(NftError::MissingAccount),
        accounts@.len() >= 2 ==> bytes_of(r) == update_outcome(
            accounts@[0].is_signer,
            accounts@[1].data@,
            |m: MetadataModel| mint_rule(m, accounts@[0].key@),
        ),
{
    if accounts.len() < 2 {
        return Err(NftError::MissingAccount);
    }
    let artist = &accounts[0];
    let nft_account = &accounts[1];
    if !artist.is_signer {
        return Err(NftError::Unauthorized);
    }
    let mut metadata = load(&nft_account.data)?;
    if metadata.is_minted {
        return Err(NftError::AlreadyMinted);
    }
    if !metadata.creator.eq(&artist.key) {
        return Err(NftError::NotCreator);
    }
    metadata.is_minted = true;
    let out = metadata.encode();
    assert(metadata@ == mint_rule(decoded(nft_account.data@)->Some_0, artist.key@)->Ok_0);
    Ok(out)
}

/// Registers the copyright of the record held by the second account, on behalf
/// of the first.
pub fn register_copyright(accounts: &[Account]) -> (r: Result<Vec<u8>, NftError>)
    ensures
        accounts@.len() < 2 ==> r == Err::<Vec<u8>, NftError>(NftError::MissingAccount),
        accounts@.len() >= 2 ==> bytes_of(r) == update_outcome(
            accounts@[0].is_signer,
            accounts@[1].data@,
            |m: MetadataModel| register_rule(m, accounts@[0].key@),
        ),
{
    if accounts.len() < 2 {
        return Err(NftError::MissingAccount);
    }
    let artist = &accounts[0];
    let nft_account = &accounts[1];
    if !artist.is_signer {
        return Err(NftError::Unauthorized);
    }
    let mut metadata = load(&nft_account.data)?;
    if !metadata.is_minted {
        return Err(NftError::NotYetMinted);
    }
    if !metadata.creator.eq(&artist.key) {
        return Err(NftError::NotCreator);
    }
    if metadata.copyright_registered {
        return Err(NftError::AlreadyRegistered);
    }
    metadata.copyright_registered = true;
    let out = metadata.encode();
    assert(metadata@ == register_rule(decoded(nft_account.data@)->Some_0, artist.key@)->Ok_0);
    Ok(out)
}

/// Hands the record held by the second account from the first account to
/// `new_owner`.
pub fn transfer_nft(accounts: &[Account], new_owner: Pubkey) -> (r: Result<Vec<u8>, NftError>)
    ensures
        accounts@.len() < 2 ==> r == Err::<Vec<u8>, NftError>(NftError::MissingAccount),
        accounts@.len() >= 2 ==> bytes_of(r) == update_outcome(
            accounts@[0].is_signer,
            accounts@[1].data@,
            |m: MetadataModel| transfer_rule(m, accounts@[0].key@, new_owner@),
        ),
{
    if accounts.len() < 2 {
        return Err(NftError::MissingAccount);
    }
    let current_owner = &accounts[0];
    let nft_account = &accounts[1];
    if !current_owner.is_signer {
        return Err(NftError::Unauthorized);
    }
    let mut metadata = load(&nft_account.data)?;
    if !metadata.is_minted {
        return Err(NftError::NotYetMinted);
    }
    if !metadata.creator.eq(&current_owner.key) {
        return Err(NftError::NotCreator);
    }
    metadata.creator = new_owner;
    let out = metadata.encode();
    assert(metadata@ == transfer_rule(
        decoded(nft_account.data@)->Some_0,
        current_owner.key@,
        new_owner@,
    )->Ok_0);
    Ok(out)
}

/// The instruction that `d` encodes, if any.
pub open spec fn decoded_instruction(d: Seq<u8>) -> Option<InstructionModel> {
    if exists|i: InstructionModel| i.wf() && i.bytes() == d {
        Some(choose|i: InstructionModel| i.wf() && i.bytes() == d)
    } else {
        None
    }
}

/// An update's outcome as an effect on the record account.
pub open spec fn as_store(r: Result<Seq<u8>, NftError>) -> Result<(bool, Seq<u8>), NftError> {
    match r {
        Ok(b) => Ok((false, b)),
        Err(e) => Err(e),
    }
}

/// What an instruction does given the accounts and the time: whether the record
/// account is created, and the bytes it then holds; or the error.
pub open spec fn instruction_outcome(i: InstructionModel, accounts: Seq<Account>, now: i64) -> Result<
    (bool, Seq<u8>),
    NftError,
> {
    match i {
        InstructionModel::InitializeMusicNFT { title, artist, ipfs_hash, certificate_hash } => {
            if accounts.len() < 3 {
                Err(NftError::MissingAccount)
            } else if !accounts[0].is_signer {
                Err(NftError::Unauthorized)
            } else {
                Ok(
                    (
                        true,
                        new_record(
                            title,
                            artist,
                            ipfs_hash,
                            certificate_hash,
                            accounts[0].key@,
                            now,
                        ).bytes(),
                    ),
                )
            }
        },
        _ => if accounts.len() < 2 {
            Err(NftError::MissingAccount)
        } else {
            as_store(
                update_outcome(
                    accounts[0].is_signer,
                    accounts[1].data@,
                    |m: MetadataModel|
                        match i {
                            InstructionModel::MintNFT { .. } => mint_rule(m, accounts[0].key@),
                            InstructionModel::RegisterCopyright { .. } => register_rule(
                                m,
                                accounts[0].key@,
                            ),
                            InstructionModel::TransferNFT { new_owner } => transfer_rule(
                                m,
                                accounts[0].key@,
                                new_owner,
                            ),
                            _ => Err(NftError::InvalidPayload),
                        },
                ),
            )
        },
    }
}

/// An effect as a creation flag and the bytes to store.
pub open spec fn effect_of(r: Result<Effect, NftError>) -> Result<(bool, Seq<u8>), NftError> {
    match r {
        Ok(Effect::Create { data }) => Ok((true, data@)),
        Ok(Effect::Store { data }) => Ok((false, data@)),
        Err(e) => Err(e),
    }
}

fn store(r: Result<Vec<u8>, NftError>) -> (e: Result<Effect, NftError>)
    ensures
        effect_of(e) == as_store(bytes_of(r)),
{
    match r {
        Ok(data) => Ok(Effect::Store { data }),
        Err(err) => Err(err),
    }
}

/// Decodes the payload and runs the operation it names against the accounts;
/// `now` is the host's clock, read by creation alone.
pub fn process_instruction(accounts: &[Account], instruction_data: &[u8], now: i64) -> (r: Result<
    Effect,
    NftError,
>)
    ensures
        match decoded_instruction(instruction_data@) {
            None => r == Err::<Effect, NftError>(NftError::InvalidPayload),
            Some(i) => effect_of(r) == instruction_outcome(i, accounts@, now),
        },
{
    let instruction = match MusicNFTInstruction::decode(instruction_data) {
        Ok(i) => i,
        Err(e) => return Err(e),
    };
    proof {
        let j = choose|j: InstructionModel| j.wf() && j.bytes() == instruction_data@;
        assert(j == instruction@);
    }
    match instruction {
        MusicNFTInstruction::InitializeMusicNFT { title, artist, ipfs_hash, certificate_hash } => {
            match initialize_music_nft(accounts, title, artist, ipfs_hash, certificate_hash, now) {
                Ok(data) => Ok(Effect::Create { data }),
                Err(e) => Err(e),
            }
        },
        MusicNFTInstruction::MintNFT { nft_account_bump: _ } => store(mint_nft(accounts)),
        MusicNFTInstruction::RegisterCopyright { nft_account_bump: _ } => store(
            register_copyright(accounts),
        ),
        MusicNFTInstruction::TransferNFT { new_owner } => store(transfer_nft(accounts, new_owner)),
    }
}

/// A well-formed record is what its own encoding decodes to.
pub proof fn lemma_decoded_bytes(m: MetadataModel)
    requires
        m.wf(),
    ensures
        decoded(m.bytes()) == Some(m),
{
    let d = choose|d: MetadataModel| d.wf() && d.bytes() == m.bytes();
    lemma_round_trip(m, d);
}

/// Minting a record a second time with the same signer fails with
/// `AlreadyMinted`, and the record the first minting stored stays minted.
pub proof fn lemma_mint_twice(data: Seq<u8>, signer: Seq<u8>)
    requires
        update_outcome(true, data, |m: MetadataModel| mint_rule(m, signer)) is Ok,
    ensures
        ({
            let stored = update_outcome(true, data, |m: MetadataModel| mint_rule(m, signer))->Ok_0;
            &&& decoded(stored) matches Some(n) && n.is_minted
            &&& update_outcome(true, stored, |m: MetadataModel| mint_rule(m, signer)) == Err::<
                Seq<u8>,
                NftError,
            >(NftError::AlreadyMinted)
        }),
{
    let m = decoded(data)->Some_0;
    let n = MetadataModel { is_minted: true, ..m };
    assert(m.wf());
    lemma_decoded_bytes(n);
}

/// A signer other than the record's controller can neither mint an unminted
/// record nor register or transfer a minted one: each fails with `NotCreator`,
/// and nothing is stored.
pub proof fn lemma_only_creator(data: Seq<u8>, m: MetadataModel, signer: Seq<u8>, new_owner: Seq<u8>)
    requires
        decoded(data) == Some(m),
        m.creator != signer,
    ensures
        !m.is_minted ==> update_outcome(true, data, |r: MetadataModel| mint_rule(r, signer))
            == Err::<Seq<u8>, NftError>(NftError::NotCreator),
        m.is_minted ==> update_outcome(true, data, |r: MetadataModel| register_rule(r, signer))
            == Err::<Seq<u8>, NftError>(NftError::NotCreator),
        m.is_minted ==> update_outcome(
            true,
            data,
            |r: MetadataModel| transfer_rule(r, signer, new_owner),
        ) == Err::<Seq<u8>, NftError>(NftError::NotCreator),
{
}

/// Registering the copyright of an unminted record fails with `NotYetMinted`
/// whoever signs, and nothing is stored.
pub proof fn lemma_register_needs_mint(data: Seq<u8>, m: MetadataModel, signer: Seq<u8>)
    requires
        decoded(data) == Some(m),
        !m.is_minted,
    ensures
        update_outcome(true, data, |r: MetadataModel| register_rule(r, signer)) == Err::<
            Seq<u8>,
            NftError,
        >(NftError::NotYetMinted),
{
}

/// An update of a record, with the signer's identifier.
pub enum Operation {
    Mint { signer: Seq<u8> },
    Register { signer: Seq<u8> },
    Transfer { signer: Seq<u8>, new_owner: Seq<u8> },
}

/// The rule that governs an update.
pub open spec fn apply(op: Operation, m: MetadataModel) -> Result<MetadataModel, NftError> {
    match op {
        Operation::Mint { signer } => mint_rule(m, signer),
        Operation::Register { signer } => register_rule(m, signer),
        Operation::Transfer { signer, new_owner } => transfer_rule(m, signer, new_owner),
    }
}

/// The record after a run of updates that all succeed, or `None` where one fails.
pub open spec fn run(ops: Seq<Operation>, m: MetadataModel) -> Option<MetadataModel>
    decreases ops.len(),
{
    if ops.len() == 0 {
        Some(m)
    } else {
        match apply(ops[0], m) {
            Ok(n) => run(ops.drop_first(), n),
            Err(_) => None,
        }
    }
}

/// Along any run of successful updates the two flags only go from false to
/// true, so each changes at most once, and a registered copyright always comes
/// with a minted record.
pub proof fn lemma_flags_monotonic(ops: Seq<Operation>, m: MetadataModel)
    requires
        run(ops, m) is Some,
    ensures
        m.is_minted ==> run(ops, m)->Some_0.is_minted,
        m.copyright_registered ==> run(ops, m)->Some_0.copyright_registered,
        (m.copyright_registered ==> m.is_minted) ==> (run(ops, m)->Some_0.copyright_registered
            ==> run(ops, m)->Some_0.is_minted),
    decreases ops.len(),
{
    if ops.len() > 0 {
        let n = apply(ops[0], m)->Ok_0;
        lemma_flags_monotonic(ops.drop_first(), n);
    }
}

} // verus!
