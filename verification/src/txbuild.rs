use vstd::prelude::*;

use crate::account::Address;
use crate::codec::spec_le_bytes;
use spl_token::solana_program::program_pack::Pack;

verus! {

/// A 4-byte optional-field tag in the token account layout: four bytes
/// little-endian holding 0 (absent) or 1 (present).
pub open spec fn spec_coption_tag_ok(d: Seq<u8>, start: int) -> bool {
    &&& (d[start] == 0 || d[start] == 1)
    &&& d[start + 1] == 0
    &&& d[start + 2] == 0
    &&& d[start + 3] == 0
}

/// A byte string is a well-formed, initialized token account record:
/// exactly 165 bytes, an initialized or frozen state byte, and valid
/// optional-field tags for delegate, native marker and close authority.
pub open spec fn spec_token_account_ok(d: Seq<u8>) -> bool {
    &&& d.len() == 165
    &&& (d[108] == 1 || d[108] == 2)
    &&& spec_coption_tag_ok(d, 72)
    &&& spec_coption_tag_ok(d, 109)
    &&& spec_coption_tag_ok(d, 129)
}

/// The number of address-table entries one instruction contributes to a
/// message: its account keys and its program id (duplicates included, so
/// this bounds the distinct keys from above).
pub uninterp spec fn spec_instruction_key_count(ix: solana_instruction::Instruction) -> nat;

/// An upper bound on the address-table entries a list of instructions
/// contributes to a message.
pub open spec fn spec_total_key_count(s: Seq<solana_instruction::Instruction>) -> nat
    decreases s.len(),
{
    if s.len() == 0 {
        0
    } else {
        spec_total_key_count(s.drop_last()) + spec_instruction_key_count(s.last())
    }
}

/// The key contribution of a one-instruction list.
pub proof fn lemma_total_key_count_one(s: Seq<solana_instruction::Instruction>)
    requires
        s.len() == 1,
    ensures
        spec_total_key_count(s) == spec_instruction_key_count(s[0]),
{
    assert(s.drop_last() =~= Seq::<solana_instruction::Instruction>::empty());
    assert(spec_total_key_count(s.drop_last()) == 0);
    assert(s.last() == s[0]);
}

/// The key contribution of a two-instruction list.
pub proof fn lemma_total_key_count_two(s: Seq<solana_instruction::Instruction>)
    requires
        s.len() == 2,
    ensures
        spec_total_key_count(s) == spec_instruction_key_count(s[0])
            + spec_instruction_key_count(s[1]),
{
    lemma_total_key_count_one(s.drop_last());
    assert(s.drop_last()[0] == s[0]);
}

/// The fields of a token account this library reads: the mint, the
/// holder, and the token amount.
pub struct TokenAccountRec {
    pub mint: Address,
    pub owner: Address,
    pub amount: u64,
}

/// Relies on the token program's `Account::unpack`: accepts exactly the
/// initialized 165-byte records, whose mint is bytes 0..32, holder bytes
/// 32..64, and amount the little-endian value of bytes 64..72.
#[verifier::external_body]
pub fn unpack_token_account(data: &Vec<u8>) -> (r: Option<TokenAccountRec>)
    ensures
        r is Some <==> spec_token_account_ok(data@),
        r is Some ==> {
            &&& r.unwrap().mint@ == data@.subrange(0, 32)
            &&& r.unwrap().mint.wf()
            &&& r.unwrap().owner@ == data@.subrange(32, 64)
            &&& r.unwrap().owner.wf()
            &&& r.unwrap().amount == spec_le_bytes(data@, 64, 8)
        },
{
    spl_token::state::Account::unpack(data).ok().map(|acc| TokenAccountRec {
        mint: Address { bytes: acc.mint.to_bytes().to_vec() },
        owner: Address { bytes: acc.owner.to_bytes().to_vec() },
        amount: acc.amount,
    })
}

/// The size of a token mint record, as the token program packs it.
pub fn token_mint_record_len() -> (r: usize)
    ensures
        r == 82,
{
    82
}

/// Relies on the token program's id constant.
#[verifier::external_body]
pub fn spl_token_program_id() -> (r: Address)
    ensures
        r.wf(),
{
    Address { bytes: spl_token::id().to_bytes().to_vec() }
}

/// Relies on the system interface's `transfer` instruction builder.
#[verifier::external_body]
pub fn transfer_instruction(from: &Address, to: &Address, lamports: u64) -> (r:
    solana_instruction::Instruction)
    requires
        from.wf(),
        to.wf(),
    ensures
        spec_instruction_key_count(r) == 3,
{
    let f = pk(from);
    let t = pk(to);
    solana_system_interface::instruction::transfer(&f, &t, lamports)
}

/// Relies on the system interface's `create_account` instruction builder.
#[verifier::external_body]
pub fn create_account_instruction(
    payer: &Address,
    new_account: &Address,
    lamports: u64,
    space: u64,
    owner: &Address,
) -> (r: solana_instruction::Instruction)
    requires
        payer.wf(),
        new_account.wf(),
        owner.wf(),
    ensures
        spec_instruction_key_count(r) == 3,
{
    solana_system_interface::instruction::create_account(
        &pk(payer),
        &pk(new_account),
        lamports,
        space,
        &pk(owner),
    )
}

/// Relies on the token program's `initialize_mint` instruction builder.
#[verifier::external_body]
pub fn initialize_mint_instruction(mint: &Address, authority: &Address, decimals: u8) -> (r:
    Option<solana_instruction::Instruction>)
    requires
        mint.wf(),
        authority.wf(),
    ensures
        r is Some ==> spec_instruction_key_count(r.unwrap()) == 3,
{
    spl_token::instruction::initialize_mint(&spl_token::id(), &pk2(mint), &pk2(authority), None, decimals)
        .ok()
        .map(convert_instruction)
}

/// Relies on the token program's `initialize_account` instruction builder.
#[verifier::external_body]
pub fn initialize_account_instruction(account: &Address, mint: &Address, owner: &Address) -> (r:
    Option<solana_instruction::Instruction>)
    requires
        account.wf(),
        mint.wf(),
        owner.wf(),
    ensures
        r is Some ==> spec_instruction_key_count(r.unwrap()) == 5,
{
    spl_token::instruction::initialize_account(&spl_token::id(), &pk2(account), &pk2(mint), &pk2(owner))
        .ok()
        .map(convert_instruction)
}

/// Relies on the token program's `mint_to` instruction builder.
#[verifier::external_body]
pub fn mint_to_instruction(mint: &Address, destination: &Address, authority: &Address, amount: u64)
    -> (r: Option<solana_instruction::Instruction>)
    requires
        mint.wf(),
        destination.wf(),
        authority.wf(),
    ensures
        r is Some ==> spec_instruction_key_count(r.unwrap()) == 4,
{
    spl_token::instruction::mint_to(&spl_token::id(), &pk2(mint), &pk2(destination), &pk2(authority), &[], amount)
        .ok()
        .map(convert_instruction)
}

/// Relies on the token program's `transfer` instruction builder.
#[verifier::external_body]
#[allow(deprecated)]
pub fn token_transfer_instruction(
    source: &Address,
    destination: &Address,
    owner: &Address,
    amount: u64,
) -> (r: Option<solana_instruction::Instruction>)
    requires
        source.wf(),
        destination.wf(),
        owner.wf(),
    ensures
        r is Some ==> spec_instruction_key_count(r.unwrap()) == 4,
{
    spl_token::instruction::transfer(&spl_token::id(), &pk2(source), &pk2(destination), &pk2(owner), &[], amount)
        .ok()
        .map(convert_instruction)
}

/// Relies on Instruction's constructor shape: an instruction for the given
/// program over the given accounts (key bytes, signer flag, writable flag)
/// with the given data.
#[verifier::external_body]
pub fn make_instruction(
    program_id: &Address,
    accounts: &Vec<(Address, bool, bool)>,
    data: Vec<u8>,
) -> (r: solana_instruction::Instruction)
    requires
        program_id.wf(),
        forall|i: int| 0 <= i < accounts@.len() ==> (#[trigger] accounts@[i]).0.wf(),
    ensures
        spec_instruction_key_count(r) == accounts@.len() + 1,
{
    solana_instruction::Instruction {
        program_id: pk(program_id),
        accounts: accounts
            .iter()
            .map(|m| solana_instruction::AccountMeta {
                pubkey: pk(&m.0),
                is_signer: m.1,
                is_writable: m.2,
            })
            .collect(),
        data,
    }
}

/// Relies on `Message::new`: a message holding the given instructions,
/// fee-paid by the given account. The compiled address table indexes its
/// entries with a byte, so the instructions' keys and the payer must fit
/// in it; within that bound the builder cannot abort.
#[verifier::external_body]
pub fn message_new(instructions: Vec<solana_instruction::Instruction>, payer: &Address) -> (r:
    solana_message::Message)
    requires
        payer.wf(),
        spec_total_key_count(instructions@) + 1 <= 255,
{
    solana_message::Message::new(&instructions, Some(&pk(payer)))
}

/// Relies on `Transaction::new_unsigned`.
#[verifier::external_body]
pub fn transaction_new_unsigned(message: solana_message::Message) -> (r:
    solana_transaction::Transaction)
{
    solana_transaction::Transaction::new_unsigned(message)
}

/// Relies on `Transaction::try_sign` with the message's recorded
/// blockhash; reports whether signing succeeded.
#[verifier::external_body]
pub fn sign_transaction(tx: &mut solana_transaction::Transaction, keypairs: &Vec<solana_keypair::Keypair>) -> (r:
    bool)
{
    let refs: Vec<&solana_keypair::Keypair> = keypairs.iter().collect();
    let hash = tx.message.recent_blockhash;
    tx.try_sign(&refs, hash).is_ok()
}

/// Relies on `VersionedTransaction::try_new` over a legacy message.
#[verifier::external_body]
pub fn versioned_transaction_new(
    message: solana_message::Message,
    keypairs: &Vec<solana_keypair::Keypair>,
) -> (r: Option<solana_transaction::versioned::VersionedTransaction>)
{
    let refs: Vec<&solana_keypair::Keypair> = keypairs.iter().collect();
    let msg = solana_message::VersionedMessage::Legacy(message);
    solana_transaction::versioned::VersionedTransaction::try_new(msg, &refs).ok()
}

#[verifier::external_type_specification]
#[verifier::external_body]
pub struct ExSplPubkey(spl_token::solana_program::pubkey::Pubkey);

#[verifier::external_type_specification]
#[verifier::external_body]
pub struct ExSplInstruction(spl_token::solana_program::instruction::Instruction);

/// Relies on Pubkey's `new_from_array`: the key bytes as the address type
/// the system and message builders take.
#[verifier::external_body]
fn pk(a: &Address) -> (r: solana_pubkey::Pubkey)
    requires
        a.wf(),
{
    let mut arr = [0u8; 32];
    arr.copy_from_slice(&a.bytes);
    solana_pubkey::Pubkey::new_from_array(arr)
}

/// Relies on Pubkey's `new_from_array`: the key bytes as the address type
/// the token program's builders take.
#[verifier::external_body]
fn pk2(a: &Address) -> (r: spl_token::solana_program::pubkey::Pubkey)
    requires
        a.wf(),
{
    let mut arr = [0u8; 32];
    arr.copy_from_slice(&a.bytes);
    spl_token::solana_program::pubkey::Pubkey::new_from_array(arr)
}

/// Relies on the two instruction types sharing one wire layout: the token
/// program's instructions as the message builder's instruction type, with
/// the same program id bytes, account list and data.
#[verifier::external_body]
fn convert_instruction(ix: spl_token::solana_program::instruction::Instruction) -> (r:
    solana_instruction::Instruction)
{
    solana_instruction::Instruction {
        program_id: solana_pubkey::Pubkey::new_from_array(ix.program_id.to_bytes()),
        accounts: ix
            .accounts
            .into_iter()
            .map(|m| solana_instruction::AccountMeta {
                pubkey: solana_pubkey::Pubkey::new_from_array(m.pubkey.to_bytes()),
                is_signer: m.is_signer,
                is_writable: m.is_writable,
            })
            .collect(),
        data: ix.data,
    }
}

} // verus!
