//! The library's calls into outside crates, together with names for what
//! those calls return. Verus believes the contracts here; everything else in
//! the crate is proved from them.

use cosmwasm_std::Api;
use vstd::prelude::*;

verus! {

/// The bytes that base58 decoding yields for `s`, or `None` when `s` is not
/// valid base58. Decoding is a function of the input string alone.
pub uninterp spec fn bs58_decoded(s: Seq<char>) -> Option<Seq<u8>>;

/// The base58 string that encodes the bytes `b`; a function of the bytes
/// alone.
pub uninterp spec fn bs58_encoded(b: Seq<u8>) -> Seq<char>;

/// The verdict of ed25519 signature verification of the 64-byte `signature`
/// over the UTF-8 bytes of `message` under the 32-byte `public_key`; a
/// function of its arguments alone.
pub uninterp spec fn ed25519_verdict(
    message: Seq<char>,
    signature: Seq<u8>,
    public_key: Seq<u8>,
) -> bool;

/// Relies on `bs58::decode(..).into_vec()`: it returns the decoded bytes, and
/// errs exactly when the input holds a character outside the base58 alphabet.
#[verifier::external_body]
pub(crate) fn bs58_decode(s: &str) -> (r: Option<Vec<u8>>)
    ensures
        r matches Option::Some(v) ==> bs58_decoded(s@) == Option::Some(v@),
        r is None ==> bs58_decoded(s@) is None,
{
    bs58::decode(s).into_vec().ok()
}

/// Relies on `bs58::encode(..).into_string()`.
#[verifier::external_body]
pub(crate) fn bs58_encode(b: &[u8]) -> (r: String)
    ensures
        r@ == bs58_encoded(b@),
{
    bs58::encode(b).into_string()
}

/// Relies on `cosmwasm_std::testing::MockApi::ed25519_verify`, which passes
/// straight through to `cosmwasm_crypto::ed25519_verify`: with a 64-byte
/// signature and a 32-byte key that function cannot err, and it returns
/// whether the signature verifies over the message.
#[verifier::external_body]
pub(crate) fn ed25519_verify(message: &str, signature: &Vec<u8>, public_key: &Vec<u8>) -> (valid:
    bool)
    requires
        signature@.len() == 64,
        public_key@.len() == 32,
    ensures
        valid == ed25519_verdict(message@, signature@, public_key@),
{
    let api = cosmwasm_std::testing::MockApi::default();
    match api.ed25519_verify(message.as_bytes(), signature.as_slice(), public_key.as_slice()) {
        Ok(b) => b,
        Err(_) => false,
    }
}

} // verus!
