//! Hash functions, the secp256k1 key operations and the Base58Check encoder
//! that XRPL address derivation and signing are built from.
//!
//! Every function here hands its work to an outside crate (`sha2`, `ripemd`,
//! `k256`, `bs58`). Their contracts are trusted: each one names the outside
//! result, or states it where a few lines can.
use vstd::prelude::*;
use sha2::Digest;
use crate::base58::{base58check_ripple, be_value};
use k256::ecdsa::signature::hazmat::PrehashSigner;

verus! {

// ---------------------------------------------------------------------------
// Secret keys
// ---------------------------------------------------------------------------

/// The order `n` of the secp256k1 group.
pub open spec fn secp256k1_order() -> nat {
    0xFFFF_FFFF_FFFF_FFFF_FFFF_FFFF_FFFF_FFFE_BAAE_DCE6_AF48_A03B_BFD2_5E8C_D036_4141nat
}

/// The byte strings that `k256::ecdsa::SigningKey::from_slice` accepts as a
/// secret key: 24 to 32 bytes (shorter ones are left-padded with zeros), read
/// big-endian, giving a scalar in `1 .. n`.
pub open spec fn secp256k1_secret_valid(secret: Seq<u8>) -> bool {
    &&& 24 <= secret.len() <= 32
    &&& 0 < be_value(secret)
    &&& be_value(secret) < secp256k1_order()
}

// ---------------------------------------------------------------------------
// Names for what the outside functions compute
// ---------------------------------------------------------------------------

/// SHA-256 of a byte string (`sha2::Sha256::digest`).
pub uninterp spec fn sha256_digest(data: Seq<u8>) -> Seq<u8>;

/// SHA-512 of a byte string (`sha2::Sha512::digest`).
pub uninterp spec fn sha512_digest(data: Seq<u8>) -> Seq<u8>;

/// RIPEMD-160 of a byte string (`ripemd::Ripemd160::digest`).
pub uninterp spec fn ripemd160_digest(data: Seq<u8>) -> Seq<u8>;

/// The SEC1 encoding (compressed, as `k256` encodes secp256k1 points) of the
/// public key that belongs to a valid secret key.
pub uninterp spec fn secp256k1_public_key(secret: Seq<u8>) -> Seq<u8>;

/// The DER-encoded ECDSA signature (RFC 6979 nonce, low-S) that `k256` makes
/// with a valid secret key over a 32-byte prehash, or `None` where signing
/// fails.
pub uninterp spec fn secp256k1_sign_der(secret: Seq<u8>, prehash: Seq<u8>) -> Option<Seq<u8>>;

// ---------------------------------------------------------------------------
// Trusted items
// ---------------------------------------------------------------------------

/// A failure of `k256` key parsing or signing. Every such failure is a
/// `signature::Error` made by `Error::new()`, with no source: that is all
/// there is to say of it, so the value holds nothing.
#[derive(Debug, Clone, Copy, PartialEq, Eq, Structural)]
pub struct SignatureError;

/// Calls `sha2::Sha256::digest`; claims that the result is the named SHA-256
/// of the input and is 32 bytes long.
#[verifier::external_body]
pub(crate) fn sha256(data: &[u8]) -> (digest: Vec<u8>)
    ensures
        digest@ == sha256_digest(data@),
        digest@.len() == 32,
{
    sha2::Sha256::digest(data).to_vec()
}

/// Calls `sha2::Sha512::digest`; claims that the result is the named SHA-512
/// of the input and is 64 bytes long.
#[verifier::external_body]
pub(crate) fn sha512(data: &[u8]) -> (digest: Vec<u8>)
    ensures
        digest@ == sha512_digest(data@),
        digest@.len() == 64,
{
    sha2::Sha512::digest(data).to_vec()
}

/// Calls `ripemd::Ripemd160::digest`; claims that the result is the named
/// RIPEMD-160 of the input and is 20 bytes long.
#[verifier::external_body]
pub(crate) fn ripemd160(data: &[u8]) -> (digest: Vec<u8>)
    ensures
        digest@ == ripemd160_digest(data@),
        digest@.len() == 20,
{
    ripemd::Ripemd160::digest(data).to_vec()
}

/// Parses the secret with `k256::ecdsa::SigningKey::from_slice` and, where
/// that succeeds, returns the key's public key as
/// `k256::PublicKey::to_sec1_bytes` writes it. A parse failure is always
/// `Error::new()` (`ecdsa` `signing.rs`, `from_slice`), handed over as a
/// `SignatureError`. Claims that parsing succeeds
/// exactly on the secrets that `secp256k1_secret_valid` describes, and that the
/// encoding is the named public key: 33 bytes starting with `0x02` or `0x03`,
/// since `k256` compresses points.
#[verifier::external_body]
pub(crate) fn secp256k1_compressed_public_key(secret: &[u8]) -> (r: Result<Vec<u8>, SignatureError>)
    ensures
        r is Ok <==> secp256k1_secret_valid(secret@),
        r matches Ok(public_key) ==> {
            &&& public_key@ == secp256k1_public_key(secret@)
            &&& public_key@.len() == 33
            &&& (public_key@[0] == 2u8 || public_key@[0] == 3u8)
        },
{
    match k256::ecdsa::SigningKey::from_slice(secret) {
        Ok(key) => Ok(k256::PublicKey::from(key.verifying_key()).to_sec1_bytes().to_vec()),
        Err(_) => Err(SignatureError),
    }
}

/// Parses the secret with `k256::ecdsa::SigningKey::from_slice` (the outer
/// result) and signs the prehash with `PrehashSigner::sign_prehash`, writing
/// the signature with `to_der` (the inner result). Claims that parsing
/// succeeds exactly on valid secrets, and that signing succeeds exactly where
/// the named signature exists and then returns it. Both failures are always
/// `Error::new()` (`from_slice`; `bits2field`, `sign_prehashed` and
/// `Signature::from_scalars` in `ecdsa`), handed over as a `SignatureError`.
/// The signature is a DER `SEQUENCE`, so its
/// first byte is `0x30`, of at most 72 bytes (a two-byte `SEQUENCE` header
/// around two `INTEGER`s of at most 33 content bytes and two header bytes
/// each, as `ecdsa::der::Signature::from_components` writes it).
#[verifier::external_body]
pub(crate) fn secp256k1_sign_prehash_der(secret: &[u8], prehash: &[u8; 32]) -> (r: Result<
    Result<Vec<u8>, SignatureError>,
    SignatureError,
>)
    ensures
        r is Ok <==> secp256k1_secret_valid(secret@),
        r matches Ok(signed) ==> {
            &&& (signed is Ok <==> secp256k1_sign_der(secret@, prehash@) is Some)
            &&& signed matches Ok(sig) ==> {
                &&& sig@ == secp256k1_sign_der(secret@, prehash@)->0
                &&& 0 < sig@.len() <= 72
                &&& sig@[0] == 0x30u8
            }
        },
{
    match k256::ecdsa::SigningKey::from_slice(secret) {
        Ok(key) => match PrehashSigner::<k256::ecdsa::Signature>::sign_prehash(&key, prehash) {
            Ok(sig) => Ok(Ok(sig.to_der().as_bytes().to_vec())),
            Err(_) => Ok(Err(SignatureError)),
        },
        Err(_) => Err(SignatureError),
    }
}

/// Hands the failure back as `signature::Error::new()` and calls
/// `ToString::to_string` on it (its `Display`, `signature-2.2.0/src/error.rs`):
/// `signature error`, with nothing after it since the error has no source.
#[verifier::external_body]
pub(crate) fn signature_error_text(e: &SignatureError) -> (text: String)
    ensures
        text@ == "signature error"@,
{
    let outside = match *e {
        SignatureError => k256::ecdsa::Error::new(),
    };
    outside.to_string()
}

/// Calls `bs58::encode(..).with_alphabet(bs58::Alphabet::RIPPLE).with_check()
/// .into_string()`; claims that the result is the Base58Check encoding that
/// `base58check_ripple` spells out, which is how `bs58` writes it.
#[verifier::external_body]
pub(crate) fn bs58check_ripple(payload: &[u8]) -> (encoded: String)
    ensures
        encoded@ == base58check_ripple(payload@),
{
    bs58::encode(payload).with_alphabet(bs58::Alphabet::RIPPLE).with_check().into_string()
}

} // verus!
