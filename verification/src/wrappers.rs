//! The calls into outside crates that the core's logic makes, each behind a
//! trusted item whose contract states what the outside source shows. Results
//! that are functions of the arguments alone but too long to state (digests,
//! curve arithmetic, the input classifier) are given uninterpreted names that
//! the callers' own contracts then speak of exactly.
use vstd::prelude::*;

verus! {

/// The sha256 digest of a script, used as the funding-index key.
pub uninterp spec fn script_hash_of(script: Seq<u8>) -> Seq<u8>;

/// Whether a script is provably unspendable (its first opcode classifies as a
/// return or illegal opcode).
pub uninterp spec fn provably_unspendable(script: Seq<u8>) -> bool;

/// What the silent-payments input classifier recovers from one input:
/// `None` for a classification error on inconsistent data, `Some(None)` for
/// an input that yields no candidate key, `Some(Some(k))` for a recovered
/// 33-byte compressed public key.
pub uninterp spec fn pubkey_from_input(
    script_sig: Seq<u8>,
    witness: Seq<Seq<u8>>,
    script_pubkey: Seq<u8>,
) -> Option<Option<Seq<u8>>>;

/// The silent-payments tweak point derived from a transaction's candidate
/// keys and its full list of spent outpoints; `None` when the curve
/// computation rejects the inputs.
pub uninterp spec fn tweak_of(
    pubkeys: Seq<Seq<u8>>,
    outpoints: Seq<(Seq<u8>, u32)>,
) -> Option<Seq<u8>>;

/// A taproot output script: 34 bytes, a version-1 witness program of 32 bytes.
pub open spec fn is_p2tr_spec(s: Seq<u8>) -> bool {
    s.len() == 34 && s[0] == 0x51u8 && s[1] == 0x20u8
}

/// Relies on bitcoin::hashes::sha256: the 32-byte digest of the script bytes
/// alone.
#[verifier::external_body]
pub fn script_hash(script: &Vec<u8>) -> (r: Vec<u8>)
    ensures
        r@ == script_hash_of(script@),
        r@.len() == 32,
{
    let h = <bitcoin::hashes::sha256::Hash as bitcoin::hashes::Hash>::hash(script.as_slice());
    <bitcoin::hashes::sha256::Hash as bitcoin::hashes::Hash>::to_byte_array(h).to_vec()
}

/// Relies on bitcoin::Script::is_p2tr: true exactly for a 34-byte script
/// whose first byte is the push-number-1 opcode and whose second byte pushes
/// 32 bytes.
#[verifier::external_body]
pub fn script_is_p2tr(script: &Vec<u8>) -> (r: bool)
    ensures
        r == is_p2tr_spec(script@),
{
    bitcoin::Script::from_bytes(script.as_slice()).is_p2tr()
}

/// Relies on bitcoin::Script::is_provably_unspendable: a decision over the
/// script's first opcode alone (an empty script is spendable).
#[verifier::external_body]
pub fn script_is_provably_unspendable(script: &Vec<u8>) -> (r: bool)
    ensures
        r == provably_unspendable(script@),
{
    bitcoin::Script::from_bytes(script.as_slice()).is_provably_unspendable()
}

/// The classifier's error type, carried through to the caller.
#[verifier::external_type_specification]
#[verifier::external_body]
pub struct ExSpError(silentpayments::Error);

/// Relies on silentpayments::utils::receiving::get_pubkey_from_input: recovers
/// at most one candidate public key from one input's script sig, witness stack
/// and previous output script; a pure function of those bytes.
#[verifier::external_body]
pub fn extract_input_pubkey(
    script_sig: &Vec<u8>,
    witness: &Vec<Vec<u8>>,
    script_pubkey: &Vec<u8>,
) -> (r: Result<Option<Vec<u8>>, silentpayments::Error>)
    ensures
        (r matches Ok(k) ==> match k {
            Some(pk) => pubkey_from_input(script_sig@, witness.deep_view(), script_pubkey@)
                == Some(Some(pk@)) && pk@.len() == 33,
            None => pubkey_from_input(script_sig@, witness.deep_view(), script_pubkey@)
                == Some(None::<Seq<u8>>),
        }),
        (r matches Err(_) ==> pubkey_from_input(
            script_sig@,
            witness.deep_view(),
            script_pubkey@,
        ) is None),
{
    match silentpayments::utils::receiving::get_pubkey_from_input(
        script_sig.as_slice(),
        witness.as_slice(),
        script_pubkey.as_slice(),
    ) {
        Ok(Some(pk)) => Ok(Some(pk.serialize().to_vec())),
        Ok(None) => Ok(None),
        Err(e) => Err(e),
    }
}

/// Relies on silentpayments::utils::receiving::calculate_tweak_data (with
/// secp256k1 key parsing and silentpayments::utils::OutPoint packing as
/// argument conversions): one compressed point per transaction, a function of
/// the candidate keys and spent outpoints alone.
#[verifier::external_body]
pub fn calc_tweak(pubkeys: &Vec<Vec<u8>>, outpoints: &Vec<(Vec<u8>, u32)>) -> (r: Option<
    Vec<u8>,
>)
    requires
        forall|i: int| 0 <= i < outpoints@.len() ==> (#[trigger] outpoints@[i]).0@.len() == 32,
    ensures
        (r matches Some(t) ==> tweak_of(pubkeys.deep_view(), outpoints.deep_view()) == Some(t@)
            && t@.len() == 33),
        (r is None ==> tweak_of(pubkeys.deep_view(), outpoints.deep_view()) is None),
{
    let parsed: Result<Vec<silentpayments::secp256k1::PublicKey>, _> =
        pubkeys.iter().map(|k| silentpayments::secp256k1::PublicKey::from_slice(k)).collect();
    let keys = match parsed { Ok(v) => v, Err(_) => return None };
    let key_refs: Vec<&silentpayments::secp256k1::PublicKey> = keys.iter().collect();
    let outs: Vec<silentpayments::utils::OutPoint> = outpoints.iter().map(|(t, v)|
        silentpayments::utils::OutPoint::from_txid_bytes_and_vout(t.as_slice().try_into().unwrap(), *v)).collect();
    silentpayments::utils::receiving::calculate_tweak_data(&key_refs, &outs).ok().map(|p| p.serialize().to_vec())
}

} // verus!
