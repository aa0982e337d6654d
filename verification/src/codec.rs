use vstd::prelude::*;

use crate::account::Address;
use base64::Engine;
use solana_signer::Signer;
use std::str::FromStr;

verus! {

/// The decimal digit character for a value below ten.
pub open spec fn spec_digit(d: nat) -> char {
    ((d + 48) as u8) as char
}

/// The decimal rendering of a natural number: no sign, no leading zeros,
/// a single zero digit for zero.
pub open spec fn spec_decimal(n: nat) -> Seq<char>
    decreases n,
{
    if n < 10 {
        seq![spec_digit(n)]
    } else {
        spec_decimal(n / 10).push(spec_digit(n % 10))
    }
}

/// The unsigned little-endian value of `count` bytes of `d` from `start`.
pub open spec fn spec_le_bytes(d: Seq<u8>, start: int, count: nat) -> nat
    decreases count,
{
    if count == 0 {
        0
    } else {
        (d[start] + 256 * spec_le_bytes(d, start + 1, (count - 1) as nat)) as nat
    }
}

/// Relies on str's `PartialEq`: two string slices are equal exactly when
/// they hold the same characters.
#[verifier::external_body]
pub fn str_eq(a: &str, b: &str) -> (r: bool)
    ensures
        r == (a@ == b@),
{
    a == b
}

/// Relies on u64's `Display` implementation: the decimal digits of the
/// value, without sign or leading zeros.
#[verifier::external_body]
pub fn u64_to_string(n: u64) -> (r: String)
    ensures
        r@ == spec_decimal(n as nat),
{
    n.to_string()
}

#[verifier::external_type_specification]
#[verifier::external_body]
pub struct ExPubkey(solana_pubkey::Pubkey);

#[verifier::external_type_specification]
#[verifier::external_body]
pub struct ExKeypair(solana_keypair::Keypair);

#[verifier::external_type_specification]
#[verifier::external_body]
pub struct ExTransaction(solana_transaction::Transaction);

#[verifier::external_type_specification]
#[verifier::external_body]
pub struct ExVersionedTransaction(solana_transaction::versioned::VersionedTransaction);

#[verifier::external_type_specification]
#[verifier::external_body]
pub struct ExMessage(solana_message::Message);

#[verifier::external_type_specification]
#[verifier::external_body]
pub struct ExVersionedMessage(solana_message::VersionedMessage);

#[verifier::external_type_specification]
#[verifier::external_body]
pub struct ExInstruction(solana_instruction::Instruction);

/// The key bytes a base58 address string decodes to, if it is valid.
pub uninterp spec fn addr_of(s: Seq<char>) -> Option<Seq<u8>>;

/// The base58 rendering an address's key bytes display as.
pub uninterp spec fn pubkey_b58_of(b: Seq<u8>) -> Seq<char>;

/// The bytes a base64 string decodes to, if it is valid.
pub uninterp spec fn b64_decode_of(s: Seq<char>) -> Option<Seq<u8>>;

/// The base64 rendering of a byte string.
pub uninterp spec fn b64_of(b: Seq<u8>) -> Seq<char>;

/// The base58 rendering of a byte string.
pub uninterp spec fn b58_of(b: Seq<u8>) -> Seq<char>;

/// The byte vector a JSON array of integers parses to, if it is one.
pub uninterp spec fn json_bytes_of(s: Seq<char>) -> Option<Seq<u8>>;

/// The 32-byte secret seed a keypair holds.
pub uninterp spec fn keypair_bytes(kp: solana_keypair::Keypair) -> Seq<u8>;

/// The secret seed encoded in a base58 keypair string, if it is valid.
pub uninterp spec fn keypair_seed_of(s: Seq<char>) -> Seq<u8>;

/// The public key derived from a 32-byte secret seed.
pub uninterp spec fn pubkey_of_secret(seed: Seq<u8>) -> Seq<u8>;

/// Whether a byte string deserializes into a signed transaction.
pub uninterp spec fn tx_decodes(b: Seq<u8>) -> bool;

/// The base58 text of the first signature of the transaction a byte
/// string deserializes to, if it carries any signature.
pub uninterp spec fn tx_first_sig_of(b: Seq<u8>) -> Option<Seq<char>>;

/// The base58 text of a transaction's first signature, if it carries any.
pub uninterp spec fn tx_sig_text(tx: solana_transaction::Transaction) -> Option<Seq<char>>;

/// Relies on Pubkey's `FromStr`: parses a base58 string of at most 44
/// characters into exactly 32 key bytes, rejecting anything else.
#[verifier::external_body]
pub fn parse_pubkey(s: &str) -> (r: Option<Address>)
    ensures
        r is Some <==> addr_of(s@) is Some,
        r is Some ==> {
            &&& r.unwrap()@ == addr_of(s@).unwrap()
            &&& r.unwrap().wf()
        },
{
    match solana_pubkey::Pubkey::from_str(s) {
        Ok(pk) => Some(Address { bytes: pk.to_bytes().to_vec() }),
        Err(_) => None,
    }
}

/// Relies on Pubkey's `Display`: renders the 32 key bytes in base58.
#[verifier::external_body]
pub fn address_to_base58(a: &Address) -> (r: String)
    requires
        a.wf(),
    ensures
        r@ == pubkey_b58_of(a@),
{
    let mut arr = [0u8; 32];
    arr.copy_from_slice(&a.bytes);
    solana_pubkey::Pubkey::new_from_array(arr).to_string()
}

/// Relies on the base64 standard-alphabet engine's `decode`.
#[verifier::external_body]
pub fn base64_decode(s: &str) -> (r: Option<Vec<u8>>)
    ensures
        r is Some <==> b64_decode_of(s@) is Some,
        r is Some ==> r.unwrap()@ == b64_decode_of(s@).unwrap(),
{
    base64::engine::general_purpose::STANDARD.decode(s).ok()
}

/// Relies on the base64 standard-alphabet engine's `encode`.
#[verifier::external_body]
pub fn base64_encode(b: &[u8]) -> (r: String)
    ensures
        r@ == b64_of(b@),
{
    base64::engine::general_purpose::STANDARD.encode(b)
}

/// Relies on bs58's `encode`: the base58 rendering of the bytes.
#[verifier::external_body]
pub fn bs58_encode(b: &[u8]) -> (r: String)
    ensures
        r@ == b58_of(b@),
{
    bs58::encode(b).into_string()
}

/// Relies on serde_json's `from_str` for `Vec<u8>`: parses a JSON array
/// of integers in the byte range.
#[verifier::external_body]
pub fn parse_json_bytes(s: &str) -> (r: Option<Vec<u8>>)
    ensures
        r is Some <==> json_bytes_of(s@) is Some,
        r is Some ==> r.unwrap()@ == json_bytes_of(s@).unwrap(),
{
    serde_json::from_str::<Vec<u8>>(s).ok()
}

/// Relies on Keypair's `new_from_array`: builds the keypair whose secret
/// seed is exactly the given 32 bytes.
#[verifier::external_body]
pub fn keypair_from_seed(seed: &Vec<u8>) -> (r: solana_keypair::Keypair)
    requires
        seed@.len() == 32,
    ensures
        keypair_bytes(r) == seed@,
{
    let mut arr = [0u8; 32];
    arr.copy_from_slice(seed);
    solana_keypair::Keypair::new_from_array(arr)
}

/// Relies on Keypair's `try_from_base58_string`: decodes a base58 string
/// holding the 64-byte secret-and-public form and validates it.
#[verifier::external_body]
pub fn keypair_from_base58(s: &str) -> (r: Option<solana_keypair::Keypair>)
    ensures
        r is Some ==> keypair_bytes(r.unwrap()) == keypair_seed_of(s@),
{
    solana_keypair::Keypair::try_from_base58_string(s).ok()
}

/// Relies on Keypair's `new`: a keypair drawn from the system's randomness;
/// nothing relates its seed to anything but its length.
#[verifier::external_body]
pub fn keypair_new() -> (r: solana_keypair::Keypair)
    ensures
        keypair_bytes(r).len() == 32,
{
    solana_keypair::Keypair::new()
}

/// Relies on the Signer implementation of Keypair: the public key derived
/// from the keypair's secret seed.
#[verifier::external_body]
pub fn keypair_pubkey(kp: &solana_keypair::Keypair) -> (r: Address)
    ensures
        r.wf(),
        r@ == pubkey_of_secret(keypair_bytes(*kp)),
{
    Address { bytes: kp.pubkey().to_bytes().to_vec() }
}

/// Relies on bincode's `deserialize` for the legacy transaction wire form:
/// a deterministic parse, whose result's first signature is therefore a
/// function of the bytes alone.
#[verifier::external_body]
pub fn decode_transaction(bytes: &Vec<u8>) -> (r: Option<solana_transaction::Transaction>)
    ensures
        r is Some <==> tx_decodes(bytes@),
        r is Some ==> tx_sig_text(r.unwrap()) == tx_first_sig_of(bytes@),
{
    bincode::deserialize::<solana_transaction::Transaction>(bytes).ok()
}

/// Relies on Signature's `Display` (base58): the first signature of a
/// transaction, if it carries any.
#[verifier::external_body]
pub fn tx_first_signature(tx: &solana_transaction::Transaction) -> (r: Option<String>)
    ensures
        r is Some <==> tx_sig_text(*tx) is Some,
        r is Some ==> r.unwrap()@ == tx_sig_text(*tx).unwrap(),
{
    tx.signatures.get(0).map(|s| s.to_string())
}

/// Relies on Signature's `Display` (base58): the first signature of a
/// versioned transaction, if it carries any.
#[verifier::external_body]
pub fn vtx_first_signature(tx: &solana_transaction::versioned::VersionedTransaction) -> (r: Option<
    String,
>)
{
    tx.signatures.get(0).map(|s| s.to_string())
}

} // verus!
