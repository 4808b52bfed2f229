//! Base58 as the Ripple alphabet writes it, and what it does to lengths.
use vstd::prelude::*;
use crate::crypto::sha256_digest;

verus! {

// ---------------------------------------------------------------------------
// Byte strings as numbers
// ---------------------------------------------------------------------------

/// The big-endian unsigned value of a byte string.
pub open spec fn be_value(s: Seq<u8>) -> nat
    decreases s.len(),
{
    if s.len() == 0 {
        0
    } else {
        be_value(s.drop_last()) * 256 + s.last() as nat
    }
}

// ---------------------------------------------------------------------------
// Base58 with the Ripple alphabet
// ---------------------------------------------------------------------------

/// The Ripple Base58 alphabet,
/// `rpshnaf39wBUDNEGHJKLM4PQRST7VWXYZ2bcdeCg65jkm8oFqi1tuvAxyz`.
pub open spec fn ripple_alphabet() -> Seq<char> {
    seq![
        'r', 'p', 's', 'h', 'n', 'a', 'f', '3', '9', 'w', 'B', 'U', 'D', 'N', 'E', 'G', 'H', 'J',
        'K', 'L', 'M', '4', 'P', 'Q', 'R', 'S', 'T', '7', 'V', 'W', 'X', 'Y', 'Z', '2', 'b', 'c',
        'd', 'e', 'C', 'g', '6', '5', 'j', 'k', 'm', '8', 'o', 'F', 'q', 'i', '1', 't', 'u', 'v',
        'A', 'x', 'y', 'z',
    ]
}

/// The base-58 digits of a number, most significant first, with no digit
/// at all for zero.
pub open spec fn base58_digits(n: nat) -> Seq<char>
    decreases n,
{
    if n == 0 {
        Seq::empty()
    } else {
        base58_digits(n / 58).push(ripple_alphabet()[(n % 58) as int])
    }
}

/// The number of zero bytes a byte string starts with.
pub open spec fn leading_zero_bytes(s: Seq<u8>) -> nat
    decreases s.len(),
{
    if s.len() > 0 && s[0] == 0 {
        1 + leading_zero_bytes(s.drop_first())
    } else {
        0
    }
}

/// Base58 as `bs58` writes it: one `r` for each leading zero byte, then the
/// digits of the whole string read as a big-endian number.
pub open spec fn base58_ripple(s: Seq<u8>) -> Seq<char> {
    Seq::new(leading_zero_bytes(s), |i: int| ripple_alphabet()[0]) + base58_digits(be_value(s))
}

/// The Base58Check checksum: the first four bytes of the double SHA-256.
pub open spec fn base58_checksum(payload: Seq<u8>) -> Seq<u8> {
    Seq::new(4, |i: int| sha256_digest(sha256_digest(payload))[i])
}

/// Base58Check: the payload followed by its checksum, in Base58.
pub open spec fn base58check_ripple(payload: Seq<u8>) -> Seq<char> {
    base58_ripple(payload + base58_checksum(payload))
}

// ---------------------------------------------------------------------------
// Lengths
// ---------------------------------------------------------------------------

/// `b` to the power `e`.
pub open spec fn power(b: nat, e: nat) -> nat
    decreases e,
{
    if e == 0 {
        1
    } else {
        b * power(b, (e - 1) as nat)
    }
}

proof fn lemma_power_positive(b: nat, e: nat)
    requires
        b > 0,
    ensures
        power(b, e) > 0,
    decreases e,
{
    if e > 0 {
        lemma_power_positive(b, (e - 1) as nat);
        assert(b * power(b, (e - 1) as nat) > 0) by (nonlinear_arith)
            requires
                b > 0,
                power(b, (e - 1) as nat) > 0,
        ;
    }
}

/// A byte string of `n` bytes is worth less than `256^n`.
proof fn lemma_be_value_upper(s: Seq<u8>)
    ensures
        be_value(s) < power(256, s.len()),
    decreases s.len(),
{
    if s.len() > 0 {
        let t = s.drop_last();
        lemma_be_value_upper(t);
        let a = be_value(t);
        let p = power(256, t.len());
        let l = s.last() as nat;
        assert(a * 256 + l < p * 256) by (nonlinear_arith)
            requires
                a < p,
                l < 256,
        ;
        assert(power(256, s.len()) == 256 * p);
    }
}

/// A byte string of `n` bytes that does not start with a zero byte is worth
/// at least `256^(n-1)`.
proof fn lemma_be_value_lower(s: Seq<u8>)
    requires
        s.len() > 0,
        s[0] != 0,
    ensures
        be_value(s) >= power(256, (s.len() - 1) as nat),
    decreases s.len(),
{
    if s.len() == 1 {
        assert(s.drop_last().len() == 0);
    } else {
        let t = s.drop_last();
        assert(t[0] == s[0]);
        lemma_be_value_lower(t);
        let a = be_value(t);
        let p = power(256, (t.len() - 1) as nat);
        assert(a * 256 >= p * 256) by (nonlinear_arith)
            requires
                a >= p,
        ;
        assert(power(256, (s.len() - 1) as nat) == 256 * p);
    }
}

/// Leading zero bytes add nothing to the value.
proof fn lemma_be_value_skip_zeros(s: Seq<u8>, z: int)
    requires
        0 <= z <= s.len(),
        forall|i: int| 0 <= i < z ==> s[i] == 0,
    ensures
        be_value(s) == be_value(s.skip(z)),
    decreases s.len(),
{
    if s.len() > 0 {
        if z == s.len() {
            let t = s.drop_last();
            lemma_be_value_skip_zeros(t, z - 1);
            assert(t.skip(z - 1).len() == 0);
            assert(s.skip(z).len() == 0);
        } else {
            let t = s.drop_last();
            lemma_be_value_skip_zeros(t, z);
            assert(s.skip(z).drop_last() =~= t.skip(z));
            assert(s.skip(z).last() == s.last());
        }
    }
}

/// The leading zero bytes are zero, and the byte after them is not.
proof fn lemma_leading_zero_bytes(s: Seq<u8>)
    ensures
        leading_zero_bytes(s) <= s.len(),
        forall|i: int| 0 <= i < leading_zero_bytes(s) ==> s[i] == 0,
        leading_zero_bytes(s) < s.len() ==> s[leading_zero_bytes(s) as int] != 0,
    decreases s.len(),
{
    if s.len() > 0 && s[0] == 0 {
        let t = s.drop_first();
        lemma_leading_zero_bytes(t);
        assert forall|i: int| 0 <= i < leading_zero_bytes(s) implies s[i] == 0 by {
            if i > 0 {
                assert(s[i] == t[i - 1]);
            }
        }
        if leading_zero_bytes(s) < s.len() {
            assert(s[leading_zero_bytes(s) as int] == t[leading_zero_bytes(t) as int]);
        }
    }
}

/// A number below `58^k` has at most `k` base-58 digits.
proof fn lemma_base58_digits_upper(n: nat, k: nat)
    requires
        n < power(58, k),
    ensures
        base58_digits(n).len() <= k,
    decreases n,
{
    if n > 0 {
        if k == 0 {
            assert(false);
        } else {
            let p = power(58, (k - 1) as nat);
            assert(n / 58 < p) by (nonlinear_arith)
                requires
                    n < 58 * p,
            ;
            lemma_base58_digits_upper(n / 58, (k - 1) as nat);
        }
    }
}

/// A number of at least `58^(k-1)` has at least `k` base-58 digits.
proof fn lemma_base58_digits_lower(n: nat, k: nat)
    requires
        k >= 1,
        n >= power(58, (k - 1) as nat),
    ensures
        base58_digits(n).len() >= k,
    decreases n,
{
    lemma_power_positive(58, (k - 1) as nat);
    if k > 1 {
        let p = power(58, (k - 2) as nat);
        assert(power(58, (k - 1) as nat) == 58 * p);
        assert(n / 58 >= p) by (nonlinear_arith)
            requires
                n >= 58 * p,
        ;
        lemma_base58_digits_lower(n / 58, (k - 1) as nat);
    }
}

/// `58^m <= 256^m`.
proof fn lemma_power_bases(m: nat)
    ensures
        power(58, m) <= power(256, m),
    decreases m,
{
    if m > 0 {
        lemma_power_bases((m - 1) as nat);
        let a = power(58, (m - 1) as nat);
        let b = power(256, (m - 1) as nat);
        assert(58 * a <= 256 * b) by (nonlinear_arith)
            requires
                a <= b,
        ;
    }
}

/// `256^(25-z) <= 58^(34-z)` for `1 <= z <= 25`: each byte beyond the first
/// costs fewer than 34 - 25 extra digits.
proof fn lemma_power_gap(z: nat)
    requires
        1 <= z <= 25,
    ensures
        power(256, (25 - z) as nat) <= power(58, (34 - z) as nat),
    decreases z,
{
    if z == 1 {
        reveal_with_fuel(power, 34);
        assert(power(256, 24) == 6277101735386680763835789423207666416102355444464034512896nat);
        assert(power(58, 33) == 15599970876632771988160814054146447252125923204784443097088nat);
    } else {
        lemma_power_gap((z - 1) as nat);
        let a = power(256, (25 - z) as nat);
        let b = power(58, (34 - z) as nat);
        assert(power(256, (26 - z) as nat) == 256 * a);
        assert(power(58, (35 - z) as nat) == 58 * b);
        assert(a <= b) by (nonlinear_arith)
            requires
                256 * a <= 58 * b,
        ;
    }
}

/// Base58 of 25 bytes that start with a zero byte: 25 to 34 characters, the
/// first of them `r`.
pub proof fn lemma_base58_of_25_bytes(full: Seq<u8>)
    requires
        full.len() == 25,
        full[0] == 0,
    ensures
        25 <= base58_ripple(full).len() <= 34,
        base58_ripple(full)[0] == ripple_alphabet()[0],
{
    lemma_leading_zero_bytes(full);
    let z = leading_zero_bytes(full);
    assert(z >= 1);
    lemma_be_value_skip_zeros(full, z as int);
    let t = full.skip(z as int);
    let v = be_value(full);
    let prefix = Seq::new(z, |i: int| ripple_alphabet()[0]);
    assert(base58_ripple(full) == prefix + base58_digits(v));
    assert((prefix + base58_digits(v))[0] == prefix[0]);
    if z == 25 {
        assert(t.len() == 0);
        assert(v == 0);
    } else {
        assert(t[0] == full[z as int]);
        lemma_be_value_upper(t);
        lemma_be_value_lower(t);
        lemma_power_gap(z);
        lemma_base58_digits_upper(v, (34 - z) as nat);
        lemma_power_bases((24 - z) as nat);
        lemma_base58_digits_lower(v, (25 - z) as nat);
    }
}

// ---------------------------------------------------------------------------
// Characters
// ---------------------------------------------------------------------------

/// Every base-58 digit of a number is a letter of the Ripple alphabet.
proof fn lemma_base58_digits_in_alphabet(n: nat)
    ensures
        forall|i: int|
            0 <= i < base58_digits(n).len() ==> ripple_alphabet().contains(
                #[trigger] base58_digits(n)[i],
            ),
    decreases n,
{
    if n > 0 {
        lemma_base58_digits_in_alphabet(n / 58);
        let d = base58_digits(n / 58);
        assert forall|i: int| 0 <= i < base58_digits(n).len() implies ripple_alphabet().contains(
            #[trigger] base58_digits(n)[i],
        ) by {
            if i < d.len() {
                assert(base58_digits(n)[i] == d[i]);
            } else {
                let k = (n % 58) as int;
                assert(base58_digits(n)[i] == ripple_alphabet()[k]);
            }
        }
    }
}

/// Every character that Base58 writes is a letter of the Ripple alphabet.
pub proof fn lemma_base58_ripple_in_alphabet(s: Seq<u8>)
    ensures
        forall|i: int|
            0 <= i < base58_ripple(s).len() ==> ripple_alphabet().contains(
                #[trigger] base58_ripple(s)[i],
            ),
{
    lemma_base58_digits_in_alphabet(be_value(s));
    let prefix = Seq::new(leading_zero_bytes(s), |i: int| ripple_alphabet()[0]);
    let digits = base58_digits(be_value(s));
    assert forall|i: int| 0 <= i < base58_ripple(s).len() implies ripple_alphabet().contains(
        #[trigger] base58_ripple(s)[i],
    ) by {
        if i < prefix.len() {
            assert(base58_ripple(s)[i] == ripple_alphabet()[0]);
        } else {
            assert(base58_ripple(s)[i] == digits[i - prefix.len()]);
        }
    }
}

} // verus!
