//! The XRPL chain signer (secp256k1).
//!
//! Signing algorithm: SHA512-half of the encoded bytes, signed with secp256k1,
//! DER-encoded output. Addresses are classic `r`-addresses: the compressed
//! public key hashed with SHA-256 then RIPEMD-160, behind the version byte
//! `0x00`, in Base58Check with the Ripple alphabet.
//!
//! The caller encodes the transaction with the appropriate `encodeFor*`
//! function of ripple-binary-codec before passing bytes here; each of those
//! already embeds the hash prefix of its signing mode (single, multisig,
//! claim, batch).
use vstd::prelude::*;
use vstd::string::*;
use crate::base58::{
    base58_checksum, base58_digits, base58check_ripple, be_value, leading_zero_bytes,
    lemma_base58_of_25_bytes, lemma_base58_ripple_in_alphabet, ripple_alphabet,
};
use crate::crypto::{
    bs58check_ripple, ripemd160, ripemd160_digest, secp256k1_compressed_public_key,
    secp256k1_public_key, secp256k1_secret_valid, secp256k1_sign_der,
    secp256k1_sign_prehash_der, sha256, sha256_digest, sha512, sha512_digest,
    signature_error_text,
};
use crate::text::{decimal, lemma_decimal_injective, push_decimal};

verus! {

/// The chain families a signer can serve.
#[derive(Debug, Clone, Copy, PartialEq, Eq, Structural)]
pub enum ChainType {
    Evm,
    Solana,
    Bitcoin,
    Cosmos,
    Tron,
    Sui,
    Xrpl,
}

/// The elliptic curves keys are derived on.
#[derive(Debug, Clone, Copy, PartialEq, Eq, Structural)]
pub enum Curve {
    Secp256k1,
    Ed25519,
}

/// What a signing operation produces.
#[derive(Debug, Clone)]
pub struct SignOutput {
    pub signature: Vec<u8>,
    pub recovery_id: Option<u8>,
    pub public_key: Option<Vec<u8>>,
}

/// Why a signer refused or failed.
#[derive(Debug, Clone)]
pub enum SignerError {
    InvalidPrivateKey(String),
    InvalidMessage(String),
    InvalidTransaction(String),
    SigningFailed(String),
    Unsupported(String),
}

/// The text of a signer error: what went wrong, then the detail.
pub open spec fn signer_error_text(e: SignerError) -> Seq<char> {
    match e {
        SignerError::InvalidPrivateKey(m) => "invalid private key: "@ + m@,
        SignerError::InvalidMessage(m) => "invalid message: "@ + m@,
        SignerError::InvalidTransaction(m) => "invalid transaction: "@ + m@,
        SignerError::SigningFailed(m) => "signing failed: "@ + m@,
        SignerError::Unsupported(m) => "unsupported: "@ + m@,
    }
}

impl SignerError {
    /// The error as text.
    pub fn to_string(&self) -> (s: String)
        ensures
            s@ == signer_error_text(*self),
    {
        let (label, detail) = match self {
            SignerError::InvalidPrivateKey(m) => ("invalid private key: ", m),
            SignerError::InvalidMessage(m) => ("invalid message: ", m),
            SignerError::InvalidTransaction(m) => ("invalid transaction: ", m),
            SignerError::SigningFailed(m) => ("signing failed: ", m),
            SignerError::Unsupported(m) => ("unsupported: ", m),
        };
        let mut s = String::from_str(label);
        s.append(detail.as_str());
        s
    }
}

/// XRPL chain signer (secp256k1).
pub struct XrplSigner;

// ---------------------------------------------------------------------------
// What the signer computes
// ---------------------------------------------------------------------------

/// The BIP-44 path of account `index`: `m/44'/144'/0'/0/{index}`.
pub open spec fn xrpl_derivation_path(index: nat) -> Seq<char> {
    "m/44'/144'/0'/0/"@ + decimal(index)
}

/// The 20-byte account ID of a secret key: RIPEMD-160 of SHA-256 of the
/// compressed public key.
pub open spec fn xrpl_account_id(secret: Seq<u8>) -> Seq<u8> {
    ripemd160_digest(sha256_digest(secp256k1_public_key(secret)))
}

/// The classic address of a secret key: version byte `0x00` and the account
/// ID, in Base58Check with the Ripple alphabet.
pub open spec fn xrpl_address(secret: Seq<u8>) -> Seq<char> {
    base58check_ripple(seq![0u8] + xrpl_account_id(secret))
}

/// XRPL's hash: the first 32 bytes of SHA-512.
pub open spec fn sha512_half_spec(data: Seq<u8>) -> Seq<u8> {
    sha512_digest(data).take(32)
}

/// How a signing request ends.
pub enum SignOutcome {
    InvalidPrivateKey,
    InvalidMessage(Seq<char>),
    InvalidTransaction(Seq<char>),
    SigningFailed,
    Signed(Seq<u8>),
}

/// Signing a 32-byte prehash with secp256k1: the key must parse, and then
/// the DER signature is the named one, where it exists.
pub open spec fn ecdsa_outcome(secret: Seq<u8>, prehash: Seq<u8>) -> SignOutcome {
    if !secp256k1_secret_valid(secret) {
        SignOutcome::InvalidPrivateKey
    } else {
        match secp256k1_sign_der(secret, prehash) {
            Some(sig) => SignOutcome::Signed(sig),
            None => SignOutcome::SigningFailed,
        }
    }
}

/// The message of a refused prehash.
pub open spec fn wrong_hash_length_text(len: nat) -> Seq<char> {
    "expected 32-byte hash, got "@ + decimal(len) + " bytes"@
}

/// `XrplSigner::sign`: only a 32-byte message is a prehash to sign.
pub open spec fn sign_outcome(secret: Seq<u8>, message: Seq<u8>) -> SignOutcome {
    if message.len() != 32 {
        SignOutcome::InvalidMessage(wrong_hash_length_text(message.len()))
    } else {
        ecdsa_outcome(secret, message)
    }
}

/// The message of an empty transaction.
pub open spec fn empty_transaction_text() -> Seq<char> {
    "transaction bytes must not be empty"@
}

/// `XrplSigner::sign_transaction`: non-empty bytes are hashed with
/// SHA512-half, and the hash is signed.
pub open spec fn sign_transaction_outcome(secret: Seq<u8>, tx: Seq<u8>) -> SignOutcome {
    if tx.len() == 0 {
        SignOutcome::InvalidTransaction(empty_transaction_text())
    } else {
        ecdsa_outcome(secret, sha512_half_spec(tx))
    }
}

/// A signing result says what the outcome says. A key or signing failure
/// carries the text of the `k256` error; a success is a DER signature of at
/// most 72 bytes, with neither a recovery ID nor a public key.
pub open spec fn signed_as(r: Result<SignOutput, SignerError>, o: SignOutcome) -> bool {
    match o {
        SignOutcome::InvalidPrivateKey => r matches Err(SignerError::InvalidPrivateKey(m))
            && m@ == "signature error"@,
        SignOutcome::InvalidMessage(m) => r matches Err(SignerError::InvalidMessage(t)) && t@ == m,
        SignOutcome::InvalidTransaction(m) => r matches Err(SignerError::InvalidTransaction(t))
            && t@ == m,
        SignOutcome::SigningFailed => r matches Err(SignerError::SigningFailed(m))
            && m@ == "signature error"@,
        SignOutcome::Signed(sig) => r matches Ok(out) && out.signature@ == sig
            && 0 < sig.len() <= 72 && sig[0] == 0x30u8 && out.recovery_id is None
            && out.public_key is None,
    }
}

/// The message that refuses off-chain message signing.
pub open spec fn message_signing_unsupported_text() -> Seq<char> {
    "XRPL off-chain message signing is not supported: no canonical standard exists. Define a convention (e.g. SHA512Half(XMSG\\0 || message)) before enabling this."@
}

// ---------------------------------------------------------------------------
// Implementation
// ---------------------------------------------------------------------------

/// XRPL hash function: first 32 bytes of SHA-512.
///
/// Equivalent to `sha512Half` in ripple-binary-codec/src/hashes.ts.
pub fn sha512_half(data: &[u8]) -> (half: [u8; 32])
    ensures
        half@ == sha512_half_spec(data@),
        sha512_digest(data@).len() == 64,
{
    let hash = sha512(data);
    let mut half = [0u8; 32];
    let mut i: usize = 0;
    while i < 32
        invariant
            hash@.len() == 64,
            hash@ == sha512_digest(data@),
            0 <= i <= 32,
            forall|k: int| 0 <= k < i ==> half@[k] == hash@[k],
        decreases 32 - i,
    {
        half[i] = hash[i];
        i = i + 1;
    }
    assert(half@ =~= sha512_half_spec(data@));
    half
}

/// Sign a 32-byte digest with secp256k1, returning a DER-encoded signature.
///
/// XRPL requires DER encoding (not raw r||s).
fn sign_secp256k1(private_key: &[u8], digest: &[u8; 32]) -> (r: Result<Vec<u8>, SignerError>)
    ensures
        match ecdsa_outcome(private_key@, digest@) {
            SignOutcome::InvalidPrivateKey => r matches Err(SignerError::InvalidPrivateKey(m))
                && m@ == "signature error"@,
            SignOutcome::Signed(sig) => r matches Ok(s) && s@ == sig && 0 < sig.len() <= 72
                && sig[0] == 0x30u8,
            _ => r matches Err(SignerError::SigningFailed(m)) && m@ == "signature error"@,
        },
{
    match secp256k1_sign_prehash_der(private_key, digest) {
        Err(e) => Err(SignerError::InvalidPrivateKey(signature_error_text(&e))),
        Ok(Err(e)) => Err(SignerError::SigningFailed(signature_error_text(&e))),
        Ok(Ok(sig)) => Ok(sig),
    }
}

/// Wraps a DER signature, or passes an error on.
fn into_sign_output(r: Result<Vec<u8>, SignerError>) -> (out: Result<SignOutput, SignerError>)
    ensures
        r matches Ok(sig) ==> out matches Ok(o) && o.signature@ == sig@ && o.recovery_id is None
            && o.public_key is None,
        r matches Err(e) ==> out matches Err(f) && f == e,
{
    match r {
        Ok(sig) => Ok(SignOutput { signature: sig, recovery_id: None, public_key: None }),
        Err(e) => Err(e),
    }
}

impl XrplSigner {
    pub fn chain_type(&self) -> (c: ChainType)
        ensures
            c == ChainType::Xrpl,
    {
        ChainType::Xrpl
    }

    pub fn curve(&self) -> (c: Curve)
        ensures
            c == Curve::Secp256k1,
    {
        Curve::Secp256k1
    }

    pub fn coin_type(&self) -> (t: u32)
        ensures
            t == 144,
    {
        144
    }

    /// `m/44'/144'/0'/0/{index}`.
    pub fn default_derivation_path(&self, index: u32) -> (path: String)
        ensures
            path@ == xrpl_derivation_path(index as nat),
    {
        let mut path = String::from_str("m/44'/144'/0'/0/");
        push_decimal(&mut path, index as u128);
        path
    }

    /// Derive a classic XRPL `r`-address from a private key.
    ///
    /// Algorithm: compressed pubkey → SHA256 → RIPEMD160 → base58check
    /// with version byte `0x00` using the Ripple alphabet.
    ///
    /// Equivalent to `deriveAddressFromBytes` in ripple-keypairs/src/index.ts.
    pub fn derive_address(&self, private_key: &[u8]) -> (r: Result<String, SignerError>)
        ensures
            r is Ok <==> secp256k1_secret_valid(private_key@),
            r matches Ok(address) ==> {
                &&& address@ == xrpl_address(private_key@)
                &&& address@ == base58check_ripple(
                    seq![0u8] + ripemd160_digest(sha256_digest(secp256k1_public_key(private_key@))),
                )
                &&& xrpl_account_id(private_key@).len() == 20
                &&& address@[0] == 'r'
                &&& 25 <= address@.len() <= 34
                &&& forall|i: int|
                    0 <= i < address@.len() ==> ripple_alphabet().contains(#[trigger] address@[i])
            },
            r matches Err(e) ==> e matches SignerError::InvalidPrivateKey(m) && m@ == "signature error"@,
    {
        let public_key = match secp256k1_compressed_public_key(private_key) {
            Ok(k) => k,
            Err(e) => {
                return Err(SignerError::InvalidPrivateKey(signature_error_text(&e)));
            },
        };
        let sha = sha256(public_key.as_slice());
        let mut account_id = ripemd160(sha.as_slice());
        let ghost id = account_id@;

        // Base58Check: version byte 0x00 || 20-byte account_id
        let mut payload: Vec<u8> = Vec::with_capacity(21);
        payload.push(0u8);
        payload.append(&mut account_id);
        assert(payload@ =~= seq![0u8] + id);
        proof {
            lemma_address_format(private_key@);
        }
        Ok(bs58check_ripple(payload.as_slice()))
    }

    /// Sign a pre-hashed 32-byte message with secp256k1 (DER output).
    pub fn sign(&self, private_key: &[u8], message: &[u8]) -> (r: Result<SignOutput, SignerError>)
        ensures
            signed_as(r, sign_outcome(private_key@, message@)),
            r matches Ok(out) ==> message@.len() == 32 && secp256k1_secret_valid(private_key@)
                && secp256k1_sign_der(private_key@, message@) == Some(out.signature@),
    {
        if message.len() != 32 {
            let mut text = String::from_str("expected 32-byte hash, got ");
            push_decimal(&mut text, message.len() as u128);
            text.append(" bytes");
            return Err(SignerError::InvalidMessage(text));
        }
        let mut digest = [0u8; 32];
        let mut i: usize = 0;
        while i < 32
            invariant
                message@.len() == 32,
                0 <= i <= 32,
                forall|k: int| 0 <= k < i ==> digest@[k] == message@[k],
            decreases 32 - i,
        {
            digest[i] = message[i];
            i = i + 1;
        }
        assert(digest@ =~= message@);
        into_sign_output(sign_secp256k1(private_key, &digest))
    }

    /// Sign the output of any `encodeFor*` function from ripple-binary-codec.
    ///
    /// Each encode function already prepends the appropriate hash prefix:
    /// - `encodeForSigning(tx)`              → `STX\0` || serialized fields
    /// - `encodeForMultisigning(tx, account)` → `SMT\0` || serialized fields || account_id
    /// - `encodeForSigningClaim(claim)`       → `CLM\0` || channel_id || amount
    /// - `encodeForSigningBatch(batch)`       → `BCH\0` (0x42434800) || batch fields
    ///
    /// Pass the hex-decoded bytes of that output directly here: the signer
    /// computes SHA512-half and signs with secp256k1, returning a DER-encoded
    /// signature.
    pub fn sign_transaction(&self, private_key: &[u8], tx_bytes: &[u8]) -> (r: Result<
        SignOutput,
        SignerError,
    >)
        ensures
            signed_as(r, sign_transaction_outcome(private_key@, tx_bytes@)),
            r matches Ok(out) ==> tx_bytes@.len() > 0 && secp256k1_secret_valid(private_key@)
                && secp256k1_sign_der(private_key@, sha512_digest(tx_bytes@).take(32)) == Some(
                out.signature@,
            ),
    {
        if tx_bytes.len() == 0 {
            return Err(
                SignerError::InvalidTransaction(
                    String::from_str("transaction bytes must not be empty"),
                ),
            );
        }
        let digest = sha512_half(tx_bytes);
        into_sign_output(sign_secp256k1(private_key, &digest))
    }

    /// Off-chain message signing is not yet supported for XRPL.
    ///
    /// XRPL has no canonical message signing standard equivalent to EIP-191.
    /// A convention must be defined before this can be implemented.
    pub fn sign_message(&self, _private_key: &[u8], _message: &[u8]) -> (r: Result<
        SignOutput,
        SignerError,
    >)
        ensures
            r matches Err(SignerError::Unsupported(m)) && m@ == message_signing_unsupported_text(),
    {
        Err(
            SignerError::Unsupported(
                String::from_str(
                    "XRPL off-chain message signing is not supported: no canonical standard exists. Define a convention (e.g. SHA512Half(XMSG\\0 || message)) before enabling this.",
                ),
            ),
        )
    }
}

// ---------------------------------------------------------------------------
// Laws
// ---------------------------------------------------------------------------

/// Every classic address a secret key derives starts with `r`: the version
/// byte `0x00` is a leading zero, which Base58 writes as the alphabet's first
/// character.
pub proof fn lemma_address_starts_with_r(secret: Seq<u8>)
    ensures
        xrpl_address(secret).len() > 0,
        xrpl_address(secret)[0] == 'r',
{
    let payload = seq![0u8] + xrpl_account_id(secret);
    let full = payload + base58_checksum(payload);
    assert(full[0] == 0u8);
    assert(leading_zero_bytes(full) >= 1);
    let prefix = Seq::new(leading_zero_bytes(full), |i: int| ripple_alphabet()[0]);
    assert(prefix[0] == 'r');
    assert((prefix + base58_digits(be_value(full)))[0] == prefix[0]);
}

/// The shape of a classic address: it starts with `r`, is 25 to 34
/// characters long (21 payload bytes and 4 checksum bytes in Base58), and
/// every character is a letter of the Ripple alphabet. The length needs the
/// 20-byte account ID that RIPEMD-160 gives.
pub proof fn lemma_address_format(secret: Seq<u8>)
    requires
        xrpl_account_id(secret).len() == 20,
    ensures
        xrpl_address(secret)[0] == 'r',
        25 <= xrpl_address(secret).len() <= 34,
        forall|i: int|
            0 <= i < xrpl_address(secret).len() ==> ripple_alphabet().contains(
                #[trigger] xrpl_address(secret)[i],
            ),
{
    lemma_address_starts_with_r(secret);
    let payload = seq![0u8] + xrpl_account_id(secret);
    let full = payload + base58_checksum(payload);
    assert(full.len() == 25);
    assert(full[0] == 0u8);
    lemma_base58_of_25_bytes(full);
    lemma_base58_ripple_in_alphabet(full);
}

/// Signing a transaction is signing its SHA512-half: `sign_transaction` on
/// non-empty bytes ends exactly as `sign` on their 32-byte SHA512-half does
/// (given the 64-byte SHA-512 that the hash function returns).
pub proof fn lemma_sign_transaction_is_sign_of_hash(secret: Seq<u8>, tx: Seq<u8>)
    requires
        tx.len() > 0,
        sha512_digest(tx).len() == 64,
    ensures
        sign_transaction_outcome(secret, tx) == sign_outcome(secret, sha512_half_spec(tx)),
{
}

/// Different account indices give different derivation paths.
pub proof fn lemma_derivation_paths_distinct(a: nat, b: nat)
    requires
        a != b,
    ensures
        xrpl_derivation_path(a) != xrpl_derivation_path(b),
{
    let p = "m/44'/144'/0'/0/"@;
    if xrpl_derivation_path(a) == xrpl_derivation_path(b) {
        assert(xrpl_derivation_path(a).skip(p.len() as int) =~= decimal(a));
        assert(xrpl_derivation_path(b).skip(p.len() as int) =~= decimal(b));
        lemma_decimal_injective(a, b);
    }
}

/// The account ID hashes the public key exactly as `k256` encodes it: the
/// 33-byte compressed SEC1 form, its first byte giving the parity of `y`,
/// through SHA-256 and then RIPEMD-160; the address is that ID behind the
/// version byte `0x00`, in Base58Check.
pub proof fn lemma_address_hashes_the_public_key(secret: Seq<u8>)
    ensures
        xrpl_account_id(secret) == ripemd160_digest(sha256_digest(secp256k1_public_key(secret))),
        xrpl_address(secret) == base58check_ripple(
            seq![0u8] + ripemd160_digest(sha256_digest(secp256k1_public_key(secret))),
        ),
{
}

/// Signing hands the 32-byte hash to `k256` as it is: with a valid key, the
/// outcome is the signature `k256` makes over that very prehash, and signing
/// fails only where `k256` gives none.
pub proof fn lemma_signing_uses_the_hash_itself(secret: Seq<u8>, hash: Seq<u8>)
    requires
        secp256k1_secret_valid(secret),
        hash.len() == 32,
    ensures
        secp256k1_sign_der(secret, hash) matches Some(sig) ==> sign_outcome(secret, hash)
            == SignOutcome::Signed(sig),
        secp256k1_sign_der(secret, hash) is None ==> sign_outcome(secret, hash)
            == SignOutcome::SigningFailed,
{
}

/// Signing a transaction signs the first 32 bytes of its SHA-512, in order:
/// with a valid key and non-empty bytes, the outcome is the signature `k256`
/// makes over exactly that prehash.
pub proof fn lemma_transaction_signature_is_over_its_hash(secret: Seq<u8>, tx: Seq<u8>)
    requires
        secp256k1_secret_valid(secret),
        tx.len() > 0,
    ensures
        secp256k1_sign_der(secret, sha512_digest(tx).take(32)) matches Some(sig)
            ==> sign_transaction_outcome(secret, tx) == SignOutcome::Signed(sig),
        secp256k1_sign_der(secret, sha512_digest(tx).take(32)) is None
            ==> sign_transaction_outcome(secret, tx) == SignOutcome::SigningFailed,
{
}

} // verus!
