//! The decisions and the text of the `wallet` commands: creating, importing,
//! exporting, deleting, renaming and listing wallets in the vault.
//!
//! The commands themselves read the terminal, the vault and the clock; what
//! they decide from what they read, and what they print, is here.
use vstd::prelude::*;
use vstd::string::*;
use vstd::utf8::*;
use crate::text::decimal;

verus! {

// ---------------------------------------------------------------------------
// Data
// ---------------------------------------------------------------------------

/// A refused command.
#[derive(Debug, Clone)]
pub enum CliError {
    InvalidArgs(String),
}

/// How many words a new mnemonic has.
#[derive(Debug, Clone, Copy, PartialEq, Eq, Structural)]
pub enum MnemonicStrength {
    Words12,
    Words24,
}

/// What secret a wallet holds.
#[derive(Debug, Clone, Copy, PartialEq, Eq, Structural)]
pub enum KeyType {
    Mnemonic,
    PrivateKey,
}

/// An address of a wallet on one chain.
#[derive(Debug, Clone)]
pub struct WalletAccount {
    pub account_id: String,
    pub address: String,
    pub chain_id: String,
    pub derivation_path: String,
}

/// What the listing shows of a stored wallet.
#[derive(Debug, Clone)]
pub struct WalletSummary {
    pub id: String,
    pub name: String,
    pub accounts: Vec<WalletAccount>,
    pub created_at: String,
}

/// The text of a refusal.
pub open spec fn invalid_args(r: CliError, text: Seq<char>) -> bool {
    r matches CliError::InvalidArgs(m) && m@ == text
}

// ---------------------------------------------------------------------------
// Outside helpers
// ---------------------------------------------------------------------------

/// The error of `String::from_utf8`.
#[verifier::external_type_specification]
#[verifier::external_body]
pub struct ExFromUtf8Error(std::string::FromUtf8Error);

/// Why hexadecimal decoding failed: the variants of `hex::FromHexError`.
#[derive(Debug, Clone, Copy, PartialEq, Eq, Structural)]
pub enum HexError {
    InvalidHexCharacter { c: char, index: usize },
    OddLength,
    InvalidStringLength,
}

/// The value of a hexadecimal digit byte (`0-9`, `a-f`, `A-F`).
pub open spec fn hex_digit_value(b: u8) -> Option<nat> {
    if 48 <= b <= 57 {
        Some((b - 48) as nat)
    } else if 97 <= b <= 102 {
        Some((b - 87) as nat)
    } else if 65 <= b <= 70 {
        Some((b - 55) as nat)
    } else {
        None
    }
}

/// Hexadecimal decoding: an even number of hex digit bytes, two per byte,
/// high digit first.
pub open spec fn hex_decoded(text: Seq<u8>) -> Option<Seq<u8>> {
    if text.len() % 2 == 0 && (forall|i: int| 0 <= i < text.len() ==> (#[trigger] hex_digit_value(text[i])) is Some) {
        Some(
            Seq::new(
                text.len() / 2,
                |i: int|
                    (hex_digit_value(text[2 * i])->0 * 16 + hex_digit_value(text[2 * i + 1])->0) as u8,
            ),
        )
    } else {
        None
    }
}

/// Byte `i` is the first byte of `text` that is no hex digit.
pub open spec fn first_non_hex(text: Seq<u8>, i: int) -> bool {
    &&& 0 <= i < text.len()
    &&& hex_digit_value(text[i]) is None
    &&& forall|k: int| 0 <= k < i ==> (#[trigger] hex_digit_value(text[k])) is Some
}

/// Why hexadecimal decoding refuses a text it does not accept: an odd
/// length first, else the first byte that is no hex digit, and where it is.
pub open spec fn hex_failure(text: Seq<u8>) -> HexError {
    if text.len() % 2 != 0 {
        HexError::OddLength
    } else {
        let i = choose|i: int| first_non_hex(text, i);
        HexError::InvalidHexCharacter { c: text[i] as char, index: i as usize }
    }
}

/// A character that `{:?}` writes between single quotes as it is: printable
/// ASCII other than the quote and the backslash.
pub open spec fn debug_plain_char(c: char) -> bool {
    &&& 0x20 <= c as u32 <= 0x7e
    &&& c != '\''
    &&& c != '\\'
}

/// What `{:?}` writes between the single quotes for a character, where it is
/// the character itself or one of the backslash escapes `\t`, `\r`, `\n`,
/// `\'` and `\\`; `None` for the characters it writes as `\u{..}` or
/// `\0`.
pub open spec fn debug_char_body(c: char) -> Option<Seq<char>> {
    if debug_plain_char(c) {
        Some(seq![c])
    } else if c == '\t' {
        Some(seq!['\\', 't'])
    } else if c == '\r' {
        Some(seq!['\\', 'r'])
    } else if c == '\n' {
        Some(seq!['\\', 'n'])
    } else if c == '\'' {
        Some(seq!['\\', '\''])
    } else if c == '\\' {
        Some(seq!['\\', '\\'])
    } else {
        None
    }
}

/// The text of a `hex::FromHexError`. A character's `{:?}` form is quoted;
/// between the quotes stands the character itself or its escape.
pub open spec fn hex_error_text_form(e: HexError, t: Seq<char>) -> bool {
    match e {
        HexError::OddLength => t == "Odd number of digits"@,
        HexError::InvalidStringLength => t == "Invalid string length"@,
        HexError::InvalidHexCharacter { c, index } => {
            let head = "Invalid character '"@;
            let tail = "' at position "@ + decimal(index as nat);
            &&& head.len() + tail.len() < t.len()
            &&& t.take(head.len() as int) == head
            &&& t.skip(t.len() - tail.len()) == tail
            &&& debug_char_body(c) matches Some(body) ==> t == head + body + tail
        },
    }
}

/// Calls `hex::decode` on the string's bytes and hands its error over as a
/// `HexError`, variant for variant. Claims that it succeeds exactly on an even
/// number of hex digits and returns the bytes they spell, as `hex_decoded`
/// states, and that a failure is `hex_failure`: the length is checked first,
/// then the digits pair by pair (`FromHex for Vec<u8>` and `val` in the `hex`
/// crate).
#[verifier::external_body]
fn hex_decode(text: &str) -> (r: Result<Vec<u8>, HexError>)
    ensures
        r is Ok <==> hex_decoded(text.spec_bytes()) is Some,
        r matches Ok(bytes) ==> bytes@ == hex_decoded(text.spec_bytes())->0,
        r matches Err(e) ==> e == hex_failure(text.spec_bytes()),
{
    match hex::decode(text) {
        Ok(bytes) => Ok(bytes),
        Err(hex::FromHexError::InvalidHexCharacter { c, index }) => Err(
            HexError::InvalidHexCharacter { c, index },
        ),
        Err(hex::FromHexError::OddLength) => Err(HexError::OddLength),
        Err(hex::FromHexError::InvalidStringLength) => Err(HexError::InvalidStringLength),
    }
}

/// Hands the error back to `hex::FromHexError`, variant for variant, and
/// calls `ToString::to_string` on it (its `Display`: `Invalid character {:?}
/// at position {}`, `Odd number of digits`, `Invalid string length`). Claims
/// the form above: `{:?}` of a `char` quotes it, escapes the quote, the
/// backslash, tab, carriage return and line feed with a backslash, and writes
/// printable ASCII as it is.
#[verifier::external_body]
fn hex_error_text(e: &HexError) -> (t: String)
    ensures
        hex_error_text_form(*e, t@),
{
    let outside = match *e {
        HexError::InvalidHexCharacter { c, index } => hex::FromHexError::InvalidHexCharacter {
            c,
            index,
        },
        HexError::OddLength => hex::FromHexError::OddLength,
        HexError::InvalidStringLength => hex::FromHexError::InvalidStringLength,
    };
    outside.to_string()
}

/// Calls `String::from_utf8`; claims that it succeeds exactly on valid UTF-8
/// and then holds the characters the bytes encode.
#[verifier::external_body]
fn string_from_utf8(bytes: Vec<u8>) -> (r: Result<String, std::string::FromUtf8Error>)
    ensures
        r is Ok <==> valid_utf8(bytes@),
        r matches Ok(s) ==> s@ == decode_utf8(bytes@),
{
    String::from_utf8(bytes)
}

/// How far a byte string is valid UTF-8 (`Utf8Error::valid_up_to`): `i` is
/// the largest index whose prefix is valid UTF-8.
pub open spec fn utf8_valid_up_to(bytes: Seq<u8>, i: int) -> bool {
    &&& 0 <= i <= bytes.len()
    &&& valid_utf8(bytes.take(i))
    &&& forall|j: int| i < j <= bytes.len() ==> !valid_utf8(#[trigger] bytes.take(j))
}

/// The text of a UTF-8 error for these bytes: an invalid sequence of some
/// length, or an input that ends inside a character, from the index up to
/// which the bytes are valid.
pub open spec fn utf8_error_text_form(bytes: Seq<u8>, t: Seq<char>) -> bool {
    exists|i: int|
        #![trigger utf8_valid_up_to(bytes, i)]
        utf8_valid_up_to(bytes, i) && {
            ||| t == "incomplete utf-8 byte sequence from index "@ + decimal(i as nat)
            ||| exists|n: nat|
                n >= 1 && t == "invalid utf-8 sequence of "@ + decimal(n) + " bytes from index "@
                    + decimal(i as nat)
        }
}

/// Calls `std::str::from_utf8` on bytes that are not valid UTF-8 and
/// `ToString::to_string` on its `Utf8Error` (the `Display` that
/// `FromUtf8Error` forwards to). Claims the form above, with the index that
/// `Utf8Error::valid_up_to` documents. Which of the two forms comes, and the
/// length of an invalid sequence (`Utf8Error::error_len`), are left unsaid.
#[verifier::external_body]
fn utf8_error_text(bytes: &[u8]) -> (t: String)
    requires
        !valid_utf8(bytes@),
    ensures
        utf8_error_text_form(bytes@, t@),
{
    std::str::from_utf8(bytes).unwrap_err().to_string()
}

fn text(s: &str) -> (t: String)
    ensures
        t@ == s@,
{
    String::from_str(s)
}

fn text2(a: &str, b: &str) -> (t: String)
    ensures
        t@ == a@ + b@,
{
    let mut t = String::from_str(a);
    t.append(b);
    t
}

fn text3(a: &str, b: &str, c: &str) -> (t: String)
    ensures
        t@ == a@ + b@ + c@,
{
    let mut t = String::from_str(a);
    t.append(b);
    t.append(c);
    t
}

fn text4(a: &str, b: &str, c: &str, d: &str) -> (t: String)
    ensures
        t@ == a@ + b@ + c@ + d@,
{
    let mut t = String::from_str(a);
    t.append(b);
    t.append(c);
    t.append(d);
    t
}

// ---------------------------------------------------------------------------
// create
// ---------------------------------------------------------------------------

/// The mnemonic length that `--words` asks for: 12 or 24 words.
pub fn mnemonic_strength(words: u32) -> (r: Result<MnemonicStrength, CliError>)
    ensures
        words == 12 ==> r == Ok::<MnemonicStrength, CliError>(MnemonicStrength::Words12),
        words == 24 ==> r == Ok::<MnemonicStrength, CliError>(MnemonicStrength::Words24),
        words != 12 && words != 24 ==> (r matches Err(e) && invalid_args(
            e,
            "--words must be 12 or 24"@,
        )),
{
    if words == 12 {
        Ok(MnemonicStrength::Words12)
    } else if words == 24 {
        Ok(MnemonicStrength::Words24)
    } else {
        Err(CliError::InvalidArgs(text("--words must be 12 or 24")))
    }
}

/// The mnemonic phrase as text, for showing it once at creation.
pub fn mnemonic_phrase_text(phrase: Vec<u8>) -> (r: Result<String, CliError>)
    ensures
        r is Ok <==> valid_utf8(phrase@),
        r matches Ok(s) ==> s@ == decode_utf8(phrase@),
        r matches Err(e) ==> e matches CliError::InvalidArgs(m) && exists|detail: Seq<char>|
            m@ == "invalid UTF-8 in mnemonic: "@ + detail && utf8_error_text_form(phrase@, detail),
{
    let bytes = phrase.clone();
    assert(bytes@ =~= phrase@);
    match string_from_utf8(phrase) {
        Ok(s) => Ok(s),
        Err(_) => {
            let detail = utf8_error_text(bytes.as_slice());
            let m = text2("invalid UTF-8 in mnemonic: ", detail.as_str());
            Err(CliError::InvalidArgs(m))
        },
    }
}

// ---------------------------------------------------------------------------
// import
// ---------------------------------------------------------------------------

/// What an import brings in: a mnemonic or a private key, exactly one of
/// them.
pub fn import_key_type(use_mnemonic: bool, use_private_key: bool) -> (r: Result<KeyType, CliError>)
    ensures
        use_mnemonic == use_private_key ==> (r matches Err(e) && invalid_args(
            e,
            "specify exactly one of --mnemonic or --private-key"@,
        )),
        use_mnemonic && !use_private_key ==> r == Ok::<KeyType, CliError>(KeyType::Mnemonic),
        !use_mnemonic && use_private_key ==> r == Ok::<KeyType, CliError>(KeyType::PrivateKey),
{
    if use_mnemonic == use_private_key {
        Err(CliError::InvalidArgs(text("specify exactly one of --mnemonic or --private-key")))
    } else if use_mnemonic {
        Ok(KeyType::Mnemonic)
    } else {
        Ok(KeyType::PrivateKey)
    }
}

/// The hex digits of a private key: the text after a leading `0x`, if any.
pub open spec fn key_hex_digits(s: Seq<char>) -> Seq<char> {
    if s.len() >= 2 && s[0] == '0' && s[1] == 'x' {
        s.skip(2)
    } else {
        s
    }
}

/// Decodes a hex private key, with or without a `0x` prefix.
pub fn decode_private_key_hex(hex_key: &str) -> (r: Result<Vec<u8>, CliError>)
    ensures
        r is Ok <==> hex_decoded(encode_utf8(key_hex_digits(hex_key@))) is Some,
        r matches Ok(bytes) ==> bytes@ == hex_decoded(encode_utf8(key_hex_digits(hex_key@)))->0,
        r matches Err(e) ==> e matches CliError::InvalidArgs(m) && exists|detail: Seq<char>|
            m@ == "invalid hex private key: "@ + detail && hex_error_text_form(
                hex_failure(encode_utf8(key_hex_digits(hex_key@))),
                detail,
            ),
{
    let n = hex_key.unicode_len();
    let digits: &str = if n >= 2 && hex_key.get_char(0) == '0' && hex_key.get_char(1) == 'x' {
        hex_key.substring_char(2, n)
    } else {
        hex_key
    };
    assert(digits@ =~= key_hex_digits(hex_key@));
    match hex_decode(digits) {
        Ok(bytes) => Ok(bytes),
        Err(e) => {
            let detail = hex_error_text(&e);
            let m = text2("invalid hex private key: ", detail.as_str());
            Err(CliError::InvalidArgs(m))
        },
    }
}

// ---------------------------------------------------------------------------
// Accounts
// ---------------------------------------------------------------------------

/// An account's ID: `<chain_id>:<address>` (CAIP-10).
pub open spec fn account_id_text(chain_id: Seq<char>, address: Seq<char>) -> Seq<char> {
    chain_id + ":"@ + address
}

/// The account of an address on a chain, derived at a path (empty for a
/// wallet imported from a private key).
pub fn wallet_account(chain_id: &str, address: String, derivation_path: String) -> (a: WalletAccount)
    ensures
        a.account_id@ == account_id_text(chain_id@, address@),
        a.address@ == address@,
        a.chain_id@ == chain_id@,
        a.derivation_path@ == derivation_path@,
{
    let account_id = text3(chain_id, ":", address.as_str());
    WalletAccount { account_id, address, chain_id: text(chain_id), derivation_path }
}

/// The address derived for one chain, or why it could not be.
pub struct ChainDerivation<E> {
    pub chain_id: String,
    pub derivation_path: String,
    pub address: Result<String, E>,
}

/// All derivations succeeded before index `n`.
pub open spec fn all_derived<E>(d: Seq<ChainDerivation<E>>, n: int) -> bool {
    forall|i: int| 0 <= i < n ==> (#[trigger] d[i]).address is Ok
}

/// The accounts of a wallet, one per chain in order, or the first failed
/// derivation's error.
pub fn collect_accounts<E>(derived: Vec<ChainDerivation<E>>) -> (r: Result<Vec<WalletAccount>, E>)
    ensures
        r is Ok <==> all_derived(derived@, derived@.len() as int),
        r matches Err(e) ==> exists|k: int|
            0 <= k < derived@.len() && all_derived(derived@, k) && derived@[k].address
                == Err::<String, E>(e),
        r matches Ok(accounts) ==> {
            &&& accounts@.len() == derived@.len()
            &&& forall|i: int|
                0 <= i < accounts@.len() ==> {
                    let d = #[trigger] derived@[i];
                    &&& accounts@[i].address@ == d.address->Ok_0@
                    &&& accounts@[i].chain_id@ == d.chain_id@
                    &&& accounts@[i].derivation_path@ == d.derivation_path@
                    &&& accounts@[i].account_id@ == account_id_text(d.chain_id@, d.address->Ok_0@)
                }
        },
{
    let mut accounts: Vec<WalletAccount> = Vec::new();
    let mut rest = derived;
    let ghost all = rest@;
    let mut i: usize = 0;
    let n = rest.len();
    while i < n
        invariant
            n == all.len(),
            rest@ == all.skip(i as int),
            all == derived@,
            0 <= i <= n,
            all_derived(all, i as int),
            accounts@.len() == i,
            forall|j: int|
                0 <= j < i ==> {
                    let d = #[trigger] all[j];
                    &&& accounts@[j].address@ == d.address->Ok_0@
                    &&& accounts@[j].chain_id@ == d.chain_id@
                    &&& accounts@[j].derivation_path@ == d.derivation_path@
                    &&& accounts@[j].account_id@ == account_id_text(d.chain_id@, d.address->Ok_0@)
                },
        decreases n - i,
    {
        let d = rest.remove(0);
        assert(d == all[i as int]);
        assert(rest@ =~= all.skip(i + 1));
        match d.address {
            Ok(address) => {
                let a = wallet_account(d.chain_id.as_str(), address, d.derivation_path);
                accounts.push(a);
            },
            Err(e) => {
                assert(all[i as int].address == Err::<String, E>(e));
                assert(!all_derived(all, n as int)) by {
                    assert(!(all[i as int].address is Ok));
                }
                assert(0 <= i < all.len() && all_derived(all, i as int) && all[i as int].address
                    == Err::<String, E>(e));
                return Err(e);
            },
        }
        i = i + 1;
    }
    Ok(accounts)
}

/// The lines that show a wallet's accounts: `  <chain> → <address>`, and
/// under it `    Path: <path>` where the account has a derivation path.
pub open spec fn account_lines(accounts: Seq<WalletAccount>) -> Seq<Seq<char>>
    decreases accounts.len(),
{
    if accounts.len() == 0 {
        Seq::empty()
    } else {
        let a = accounts.last();
        let rest = account_lines(accounts.drop_last()).push(
            "  "@ + a.chain_id@ + " → "@ + a.address@,
        );
        if a.derivation_path@.len() > 0 {
            rest.push("    Path: "@ + a.derivation_path@)
        } else {
            rest
        }
    }
}

pub open spec fn lines_text(lines: Vec<String>) -> Seq<Seq<char>> {
    lines@.map_values(|l: String| l@)
}

/// Appends the lines that show the accounts.
fn push_account_lines(lines: &mut Vec<String>, accounts: &Vec<WalletAccount>)
    ensures
        lines_text(*final(lines)) == lines_text(*old(lines)) + account_lines(accounts@),
{
    let mut i: usize = 0;
    assert(accounts@.take(0) =~= Seq::<WalletAccount>::empty());
    while i < accounts.len()
        invariant
            0 <= i <= accounts@.len(),
            lines_text(*lines) == lines_text(*old(lines)) + account_lines(accounts@.take(i as int)),
        decreases accounts@.len() - i,
    {
        let a = &accounts[i];
        let ghost before = lines_text(*lines);
        assert(accounts@.take(i + 1).drop_last() =~= accounts@.take(i as int));
        assert(accounts@.take(i + 1).last() == accounts@[i as int]);
        lines.push(text4("  ", a.chain_id.as_str(), " → ", a.address.as_str()));
        if a.derivation_path.as_str().unicode_len() > 0 {
            lines.push(text2("    Path: ", a.derivation_path.as_str()));
        }
        assert(lines_text(*lines) =~= before + (account_lines(accounts@.take(i + 1)).subrange(
            account_lines(accounts@.take(i as int)).len() as int,
            account_lines(accounts@.take(i + 1)).len() as int,
        )));
        i = i + 1;
    }
    assert(accounts@.take(accounts@.len() as int) =~= accounts@);
}

/// What `wallet create` prints on standard output about the new wallet.
pub open spec fn created_report(id: Seq<char>, name: Seq<char>, accounts: Seq<WalletAccount>) -> Seq<
    Seq<char>,
> {
    seq!["Wallet created: "@ + id, "Name:           "@ + name, Seq::empty()] + account_lines(
        accounts,
    )
}

/// The report of a created wallet, line by line.
pub fn wallet_created_report(id: &str, name: &str, accounts: &Vec<WalletAccount>) -> (lines: Vec<
    String,
>)
    ensures
        lines_text(lines) == created_report(id@, name@, accounts@),
{
    let mut lines: Vec<String> = Vec::new();
    lines.push(text2("Wallet created: ", id));
    lines.push(text2("Name:           ", name));
    lines.push(String::new());
    push_account_lines(&mut lines, accounts);
    assert(lines_text(lines) =~= created_report(id@, name@, accounts@));
    lines
}

/// What `wallet create` prints on standard error about the mnemonic: a
/// warning before it where it is shown (it is shown once), else a note that
/// it was only stored encrypted.
pub open spec fn mnemonic_notice(show_mnemonic: bool) -> Seq<Seq<char>> {
    if show_mnemonic {
        seq![
            Seq::empty(),
            "⚠️  WARNING: The mnemonic below provides FULL ACCESS to this wallet."@,
            "⚠️  Store it securely offline. It will NOT be shown again."@,
            Seq::empty(),
        ]
    } else {
        seq![
            Seq::empty(),
            "Mnemonic encrypted and saved to vault."@,
            "Use --show-mnemonic at creation time if you need a backup copy."@,
        ]
    }
}

/// The notice about a new wallet's mnemonic, line by line.
pub fn mnemonic_notice_lines(show_mnemonic: bool) -> (lines: Vec<String>)
    ensures
        lines_text(lines) == mnemonic_notice(show_mnemonic),
{
    let mut lines: Vec<String> = Vec::new();
    lines.push(String::new());
    if show_mnemonic {
        lines.push(text("⚠️  WARNING: The mnemonic below provides FULL ACCESS to this wallet."));
        lines.push(text("⚠️  Store it securely offline. It will NOT be shown again."));
        lines.push(String::new());
    } else {
        lines.push(text("Mnemonic encrypted and saved to vault."));
        lines.push(text("Use --show-mnemonic at creation time if you need a backup copy."));
    }
    assert(lines_text(lines) =~= mnemonic_notice(show_mnemonic));
    lines
}

/// What `wallet create` prints about the new wallet's mnemonic: notice lines
/// for standard error, and the phrase for standard output where it is shown.
#[derive(Debug)]
pub struct MnemonicOutput {
    pub notice: Vec<String>,
    pub phrase: Option<String>,
}

/// Whether and how `wallet create` shows the mnemonic: with
/// `show_mnemonic`, the phrase as text (refused where it is not UTF-8) after
/// the warning; without it, only the note that it was stored encrypted.
pub fn mnemonic_output(show_mnemonic: bool, phrase: Vec<u8>) -> (r: Result<MnemonicOutput, CliError>)
    ensures
        !show_mnemonic ==> (r matches Ok(o) && lines_text(o.notice) == mnemonic_notice(false)
            && o.phrase is None),
        show_mnemonic ==> (r is Ok <==> valid_utf8(phrase@)),
        show_mnemonic ==> (r matches Ok(o) ==> lines_text(o.notice) == mnemonic_notice(true) && (
        o.phrase matches Some(p) && p@ == decode_utf8(phrase@))),
        show_mnemonic ==> (r matches Err(e) ==> e matches CliError::InvalidArgs(m)
            && exists|detail: Seq<char>|
            m@ == "invalid UTF-8 in mnemonic: "@ + detail && utf8_error_text_form(phrase@, detail)),
{
    if show_mnemonic {
        let text = mnemonic_phrase_text(phrase)?;
        Ok(MnemonicOutput { notice: mnemonic_notice_lines(true), phrase: Some(text) })
    } else {
        Ok(MnemonicOutput { notice: mnemonic_notice_lines(false), phrase: None })
    }
}

/// What `wallet import` prints about the imported wallet.
pub open spec fn imported_report(id: Seq<char>, name: Seq<char>, accounts: Seq<WalletAccount>) -> Seq<
    Seq<char>,
> {
    seq!["Wallet imported: "@ + id, "Name:            "@ + name, Seq::empty()] + account_lines(
        accounts,
    )
}

/// The report of an imported wallet, line by line.
pub fn wallet_imported_report(id: &str, name: &str, accounts: &Vec<WalletAccount>) -> (lines: Vec<
    String,
>)
    ensures
        lines_text(lines) == imported_report(id@, name@, accounts@),
{
    let mut lines: Vec<String> = Vec::new();
    lines.push(text2("Wallet imported: ", id));
    lines.push(text2("Name:            ", name));
    lines.push(String::new());
    push_account_lines(&mut lines, accounts);
    assert(lines_text(lines) =~= imported_report(id@, name@, accounts@));
    lines
}

// ---------------------------------------------------------------------------
// export
// ---------------------------------------------------------------------------

/// Exporting shows a secret, so it needs an interactive terminal.
pub fn export_terminal_check(stdin_is_terminal: bool) -> (r: Result<(), CliError>)
    ensures
        stdin_is_terminal ==> r is Ok,
        !stdin_is_terminal ==> (r matches Err(e) && invalid_args(
            e,
            "wallet export requires an interactive terminal (do not pipe stdin)"@,
        )),
{
    if stdin_is_terminal {
        Ok(())
    } else {
        Err(
            CliError::InvalidArgs(
                text("wallet export requires an interactive terminal (do not pipe stdin)"),
            ),
        )
    }
}

/// The decrypted secret as text.
pub fn exported_secret_text(secret: Vec<u8>) -> (r: Result<String, CliError>)
    ensures
        r is Ok <==> valid_utf8(secret@),
        r matches Ok(s) ==> s@ == decode_utf8(secret@),
        r matches Err(e) ==> invalid_args(e, "wallet contains invalid UTF-8 secret"@),
{
    match string_from_utf8(secret) {
        Ok(s) => Ok(s),
        Err(_) => Err(CliError::InvalidArgs(text("wallet contains invalid UTF-8 secret"))),
    }
}

/// The warning printed on standard error before the secret: it names the
/// kind of secret.
pub open spec fn export_warning(key_type: KeyType) -> Seq<Seq<char>> {
    let what = match key_type {
        KeyType::Mnemonic => "mnemonic"@,
        KeyType::PrivateKey => "private key"@,
    };
    seq![
        Seq::empty(),
        "WARNING: The "@ + what + " below provides FULL ACCESS to this wallet."@,
        "Do not share it. Store it securely offline."@,
        Seq::empty(),
    ]
}

/// The warning lines before an exported secret.
pub fn export_warning_lines(key_type: KeyType) -> (lines: Vec<String>)
    ensures
        lines_text(lines) == export_warning(key_type),
{
    let mut lines: Vec<String> = Vec::new();
    lines.push(String::new());
    match key_type {
        KeyType::Mnemonic => lines.push(
            text3("WARNING: The ", "mnemonic", " below provides FULL ACCESS to this wallet."),
        ),
        KeyType::PrivateKey => lines.push(
            text3("WARNING: The ", "private key", " below provides FULL ACCESS to this wallet."),
        ),
    }
    lines.push(text("Do not share it. Store it securely offline."));
    lines.push(String::new());
    assert(lines_text(lines) =~= export_warning(key_type));
    lines
}

// ---------------------------------------------------------------------------
// delete
// ---------------------------------------------------------------------------

/// What `wallet delete` prints on standard error when not confirmed.
pub open spec fn delete_hint(wallet_name: Seq<char>) -> Seq<Seq<char>> {
    seq![
        "To delete a wallet, pass --confirm."@,
        "Consider exporting it first: lws wallet export --wallet "@ + wallet_name,
    ]
}

/// Deleting needs `--confirm`; without it the command explains itself and
/// refuses.
pub fn delete_confirmation(wallet_name: &str, confirm: bool) -> (r: Result<(), (Vec<String>, CliError)>)
    ensures
        confirm ==> r is Ok,
        !confirm ==> (r matches Err((hint, e)) && lines_text(hint) == delete_hint(wallet_name@)
            && invalid_args(e, "--confirm is required to delete a wallet"@)),
{
    if confirm {
        return Ok(());
    }
    let mut hint: Vec<String> = Vec::new();
    hint.push(text("To delete a wallet, pass --confirm."));
    hint.push(text2("Consider exporting it first: lws wallet export --wallet ", wallet_name));
    assert(lines_text(hint) =~= delete_hint(wallet_name@));
    Err((hint, CliError::InvalidArgs(text("--confirm is required to delete a wallet"))))
}

/// The line that reports a deletion: `Wallet deleted: <id> (<name>)`.
pub fn wallet_deleted_line(id: &str, name: &str) -> (line: String)
    ensures
        line@ == "Wallet deleted: "@ + id@ + " ("@ + name@ + ")"@,
{
    let mut line = text4("Wallet deleted: ", id, " (", name);
    line.append(")");
    line
}

// ---------------------------------------------------------------------------
// rename
// ---------------------------------------------------------------------------

/// The next step of a rename.
#[derive(Debug, Clone)]
pub enum RenameStep {
    /// The wallet already has that name: nothing to do.
    Unchanged,
    /// Ask the vault whether another wallet has the new name.
    CheckNameTaken,
    /// Another wallet has the new name.
    Refuse(CliError),
    /// Save the wallet under the new name.
    Save,
}

/// Decides a rename from the wallet's current name, the new one and, once
/// asked, whether the new name is taken.
pub fn rename_step(current_name: &str, new_name: &str, name_taken: Option<bool>) -> (step:
    RenameStep)
    ensures
        current_name@ == new_name@ ==> step is Unchanged,
        current_name@ != new_name@ ==> match name_taken {
            None => step is CheckNameTaken,
            Some(true) => step matches RenameStep::Refuse(e) && invalid_args(
                e,
                "a wallet named '"@ + new_name@ + "' already exists"@,
            ),
            Some(false) => step is Save,
        },
{
    if str_equal(current_name, new_name) {
        return RenameStep::Unchanged;
    }
    match name_taken {
        None => RenameStep::CheckNameTaken,
        Some(true) => RenameStep::Refuse(
            CliError::InvalidArgs(text3("a wallet named '", new_name, "' already exists")),
        ),
        Some(false) => RenameStep::Save,
    }
}

/// Whether two strings are equal.
fn str_equal(a: &str, b: &str) -> (r: bool)
    ensures
        r == (a@ == b@),
{
    let n = a.unicode_len();
    if n != b.unicode_len() {
        return false;
    }
    let mut i: usize = 0;
    while i < n
        invariant
            n == a@.len(),
            n == b@.len(),
            0 <= i <= n,
            forall|k: int| 0 <= k < i ==> a@[k] == b@[k],
        decreases n - i,
    {
        if a.get_char(i) != b.get_char(i) {
            return false;
        }
        i = i + 1;
    }
    assert(a@ =~= b@);
    true
}

/// The line that reports a rename: `Wallet renamed: '<old>' -> '<new>'`.
pub fn wallet_renamed_line(old_name: &str, new_name: &str) -> (line: String)
    ensures
        line@ == "Wallet renamed: '"@ + old_name@ + "' -> '"@ + new_name@ + "'"@,
{
    let mut line = text4("Wallet renamed: '", old_name, "' -> '", new_name);
    line.append("'");
    line
}

// ---------------------------------------------------------------------------
// list
// ---------------------------------------------------------------------------

/// One line per account: `  <chain> → <address>`.
pub open spec fn account_summary_lines(accounts: Seq<WalletAccount>) -> Seq<Seq<char>>
    decreases accounts.len(),
{
    if accounts.len() == 0 {
        Seq::empty()
    } else {
        account_summary_lines(accounts.drop_last()).push(
            "  "@ + accounts.last().chain_id@ + " → "@ + accounts.last().address@,
        )
    }
}

/// The lines that show one stored wallet.
pub open spec fn wallet_listing(w: WalletSummary) -> Seq<Seq<char>> {
    seq!["ID:      "@ + w.id@, "Name:    "@ + w.name@, "Secured: ✓ (encrypted)"@]
        + account_summary_lines(w.accounts@) + seq!["Created: "@ + w.created_at@, Seq::empty()]
}

/// What `wallet list` prints: each wallet in turn, or a notice that there
/// are none.
pub open spec fn list_report(wallets: Seq<WalletSummary>) -> Seq<Seq<char>>
    decreases wallets.len(),
{
    if wallets.len() == 0 {
        Seq::empty()
    } else {
        list_report(wallets.drop_last()) + wallet_listing(wallets.last())
    }
}

/// The listing of the vault's wallets, line by line.
pub fn wallet_list_report(wallets: &Vec<WalletSummary>) -> (lines: Vec<String>)
    ensures
        wallets@.len() == 0 ==> lines_text(lines) == seq!["No wallets found."@],
        wallets@.len() > 0 ==> lines_text(lines) == list_report(wallets@),
{
    let mut lines: Vec<String> = Vec::new();
    if wallets.len() == 0 {
        lines.push(text("No wallets found."));
        assert(lines_text(lines) =~= seq!["No wallets found."@]);
        return lines;
    }
    let mut i: usize = 0;
    assert(wallets@.take(0) =~= Seq::<WalletSummary>::empty());
    while i < wallets.len()
        invariant
            0 <= i <= wallets@.len(),
            lines_text(lines) == list_report(wallets@.take(i as int)),
        decreases wallets@.len() - i,
    {
        let w = &wallets[i];
        let ghost before = lines_text(lines);
        lines.push(text2("ID:      ", w.id.as_str()));
        lines.push(text2("Name:    ", w.name.as_str()));
        lines.push(text("Secured: ✓ (encrypted)"));
        let mut j: usize = 0;
        while j < w.accounts.len()
            invariant
                0 <= j <= w.accounts@.len(),
                lines_text(lines) == before + seq![
                    "ID:      "@ + w.id@,
                    "Name:    "@ + w.name@,
                    "Secured: ✓ (encrypted)"@,
                ] + account_summary_lines(w.accounts@.take(j as int)),
            decreases w.accounts@.len() - j,
        {
            let a = &w.accounts[j];
            let ghost mid = lines_text(lines);
            lines.push(text4("  ", a.chain_id.as_str(), " → ", a.address.as_str()));
            assert(w.accounts@.take(j + 1).drop_last() =~= w.accounts@.take(j as int));
            assert(w.accounts@.take(j + 1).last() == w.accounts@[j as int]);
            assert(lines_text(lines) =~= mid.push("  "@ + a.chain_id@ + " → "@ + a.address@));
            j = j + 1;
        }
        assert(w.accounts@.take(w.accounts@.len() as int) =~= w.accounts@);
        let ghost mid2 = lines_text(lines);
        lines.push(text2("Created: ", w.created_at.as_str()));
        lines.push(String::new());
        assert(wallets@.take(i + 1).drop_last() =~= wallets@.take(i as int));
        assert(wallets@.take(i + 1).last() == wallets@[i as int]);
        assert(lines_text(lines) =~= mid2 + seq!["Created: "@ + w.created_at@, Seq::empty()]);
        assert(list_report(wallets@.take(i + 1)) == list_report(wallets@.take(i as int))
            + wallet_listing(wallets@[i as int]));
        assert(lines_text(lines) =~= list_report(wallets@.take(i + 1)));
        i = i + 1;
    }
    assert(wallets@.take(wallets@.len() as int) =~= wallets@);
    lines
}

// ---------------------------------------------------------------------------
// Laws
// ---------------------------------------------------------------------------

/// The lines that show an account: `  <chain> → <address>`, then
/// `    Path: <path>` where it has a derivation path.
pub open spec fn lines_of_account(a: WalletAccount) -> Seq<Seq<char>> {
    if a.derivation_path@ == Seq::<char>::empty() {
        seq!["  "@ + a.chain_id@ + " → "@ + a.address@]
    } else {
        seq!["  "@ + a.chain_id@ + " → "@ + a.address@, "    Path: "@ + a.derivation_path@]
    }
}

/// Every account is shown the same way wherever it stands: the lines of a
/// list of accounts are those of its parts, one after the other.
pub proof fn lemma_account_lines_concat(xs: Seq<WalletAccount>, ys: Seq<WalletAccount>)
    ensures
        account_lines(xs + ys) == account_lines(xs) + account_lines(ys),
    decreases ys.len(),
{
    if ys.len() == 0 {
        assert(xs + ys =~= xs);
        assert(account_lines(xs) + account_lines(ys) =~= account_lines(xs));
    } else {
        lemma_account_lines_concat(xs, ys.drop_last());
        assert((xs + ys).drop_last() =~= xs + ys.drop_last());
        assert((xs + ys).last() == ys.last());
        let a = ys.last();
        let l = "  "@ + a.chain_id@ + " → "@ + a.address@;
        if a.derivation_path@.len() != 0 {
            let p = "    Path: "@ + a.derivation_path@;
            assert(account_lines(xs + ys) =~= account_lines(xs) + account_lines(ys.drop_last())
                .push(l).push(p));
        } else {
            assert(account_lines(xs + ys) =~= account_lines(xs) + account_lines(ys.drop_last())
                .push(l));
        }
    }
}

/// The reports of `wallet create` and `wallet import` show each account,
/// the last as every other: adding an account adds its line, and its path
/// line exactly when it has a derivation path.
pub proof fn lemma_reports_show_every_account(
    id: Seq<char>,
    name: Seq<char>,
    xs: Seq<WalletAccount>,
    a: WalletAccount,
)
    ensures
        account_lines(xs.push(a)) == account_lines(xs) + lines_of_account(a),
        created_report(id, name, xs.push(a)) == created_report(id, name, xs) + lines_of_account(a),
        imported_report(id, name, xs.push(a)) == imported_report(id, name, xs) + lines_of_account(
            a,
        ),
{
    lemma_account_lines_concat(xs, seq![a]);
    assert(xs + seq![a] =~= xs.push(a));
    assert(seq![a].drop_last() =~= Seq::<WalletAccount>::empty());
    assert(account_lines(seq![a].drop_last()) == Seq::<Seq<char>>::empty());
    assert(seq![a].last() == a);
    assert(a.derivation_path@.len() == 0 ==> a.derivation_path@ =~= Seq::<char>::empty());
    assert(account_lines(seq![a]) =~= lines_of_account(a));
    assert(created_report(id, name, xs.push(a)) =~= created_report(id, name, xs)
        + lines_of_account(a));
    assert(imported_report(id, name, xs.push(a)) =~= imported_report(id, name, xs)
        + lines_of_account(a));
}

/// One summary line per account, in order.
proof fn lemma_account_summary_lines(accounts: Seq<WalletAccount>)
    ensures
        account_summary_lines(accounts).len() == accounts.len(),
        forall|k: int|
            0 <= k < accounts.len() ==> #[trigger] account_summary_lines(accounts)[k] == "  "@
                + accounts[k].chain_id@ + " → "@ + accounts[k].address@,
    decreases accounts.len(),
{
    if accounts.len() > 0 {
        lemma_account_summary_lines(accounts.drop_last());
        assert forall|k: int| 0 <= k < accounts.len() implies #[trigger] account_summary_lines(
            accounts,
        )[k] == "  "@ + accounts[k].chain_id@ + " → "@ + accounts[k].address@ by {
            if k < accounts.len() - 1 {
                assert(accounts.drop_last()[k] == accounts[k]);
            }
        }
    }
}

/// The listing of a wallet shows every one of its accounts: its ID, name and
/// the encryption note, then one line `  <chain> → <address>` per account in
/// order, then its creation time and a blank line.
pub proof fn lemma_listing_shows_every_account(w: WalletSummary)
    ensures
        wallet_listing(w).len() == 5 + w.accounts@.len(),
        wallet_listing(w)[0] == "ID:      "@ + w.id@,
        wallet_listing(w)[1] == "Name:    "@ + w.name@,
        wallet_listing(w)[2] == "Secured: ✓ (encrypted)"@,
        forall|k: int|
            0 <= k < w.accounts@.len() ==> #[trigger] wallet_listing(w)[3 + k] == "  "@
                + w.accounts@[k].chain_id@ + " → "@ + w.accounts@[k].address@,
        wallet_listing(w)[3 + w.accounts@.len() as int] == "Created: "@ + w.created_at@,
        wallet_listing(w)[4 + w.accounts@.len() as int] == Seq::<char>::empty(),
{
    lemma_account_summary_lines(w.accounts@);
    let n = w.accounts@.len() as int;
    let head = seq!["ID:      "@ + w.id@, "Name:    "@ + w.name@, "Secured: ✓ (encrypted)"@];
    let mid = account_summary_lines(w.accounts@);
    let tail = seq!["Created: "@ + w.created_at@, Seq::<char>::empty()];
    assert(wallet_listing(w) == head + mid + tail);
    assert forall|k: int| 0 <= k < n implies #[trigger] wallet_listing(w)[3 + k] == "  "@
        + w.accounts@[k].chain_id@ + " → "@ + w.accounts@[k].address@ by {
        assert((head + mid + tail)[3 + k] == mid[k]);
    }
    assert((head + mid + tail)[3 + n] == tail[0]);
    assert((head + mid + tail)[4 + n] == tail[1]);
}

/// The vault listing shows every wallet in turn: listing one more wallet
/// adds exactly that wallet's lines, after those of the others.
pub proof fn lemma_list_report_shows_every_wallet(ws: Seq<WalletSummary>, w: WalletSummary)
    ensures
        list_report(ws.push(w)) == list_report(ws) + wallet_listing(w),
        list_report(ws.push(w)).len() == list_report(ws).len() + 5 + w.accounts@.len(),
{
    assert(ws.push(w).drop_last() =~= ws);
    lemma_listing_shows_every_account(w);
}

} // verus!
