//! Text building blocks: decimal numerals, substring search and prefixes.
use vstd::prelude::*;
use vstd::string::*;
use vstd::utf8::*;

verus! {

/// The ten decimal digit characters.
pub open spec fn decimal_digit_chars() -> Seq<char> {
    seq!['0', '1', '2', '3', '4', '5', '6', '7', '8', '9']
}

/// The decimal numeral of a number, as `format!("{}", n)` writes it: no
/// leading zeros, and `0` for zero.
pub open spec fn decimal(n: nat) -> Seq<char>
    decreases n,
{
    if n < 10 {
        seq![decimal_digit_chars()[n as int]]
    } else {
        decimal(n / 10).push(decimal_digit_chars()[(n % 10) as int])
    }
}

/// The single-character string of a decimal digit.
fn digit_str(d: u128) -> (s: &'static str)
    requires
        d < 10,
    ensures
        s@ == seq![decimal_digit_chars()[d as int]],
{
    proof {
        reveal_strlit("0");
        reveal_strlit("1");
        reveal_strlit("2");
        reveal_strlit("3");
        reveal_strlit("4");
        reveal_strlit("5");
        reveal_strlit("6");
        reveal_strlit("7");
        reveal_strlit("8");
        reveal_strlit("9");
    }
    if d == 0 {
        "0"
    } else if d == 1 {
        "1"
    } else if d == 2 {
        "2"
    } else if d == 3 {
        "3"
    } else if d == 4 {
        "4"
    } else if d == 5 {
        "5"
    } else if d == 6 {
        "6"
    } else if d == 7 {
        "7"
    } else if d == 8 {
        "8"
    } else {
        "9"
    }
}

/// Appends the decimal numeral of `n` to `s`.
pub fn push_decimal(s: &mut String, n: u128)
    ensures
        final(s)@ == old(s)@ + decimal(n as nat),
    decreases n,
{
    if n >= 10 {
        push_decimal(s, n / 10);
    }
    s.append(digit_str(n % 10));
    assert(final(s)@ =~= old(s)@ + decimal(n as nat));
}

/// The decimal numeral of `n` as a new string.
pub fn decimal_string(n: u128) -> (s: String)
    ensures
        s@ == decimal(n as nat),
{
    let mut s = String::new();
    push_decimal(&mut s, n);
    assert(s@ =~= decimal(n as nat));
    s
}

/// A numeral is never empty and never longer than its number has digits.
pub proof fn lemma_decimal_len(n: nat)
    ensures
        decimal(n).len() >= 1,
        n < 10 <==> decimal(n).len() == 1,
    decreases n,
{
    if n >= 10 {
        lemma_decimal_len(n / 10);
    }
}

/// Different numbers have different numerals.
pub proof fn lemma_decimal_injective(a: nat, b: nat)
    requires
        decimal(a) == decimal(b),
    ensures
        a == b,
    decreases a,
{
    lemma_decimal_len(a);
    lemma_decimal_len(b);
    if a >= 10 {
        assert(b >= 10);
        assert(decimal(a).drop_last() =~= decimal(a / 10));
        assert(decimal(b).drop_last() =~= decimal(b / 10));
        assert(decimal(a).last() == decimal_digit_chars()[(a % 10) as int]);
        assert(decimal(b).last() == decimal_digit_chars()[(b % 10) as int]);
        lemma_decimal_injective(a / 10, b / 10);
    } else {
        assert(decimal(a)[0] == decimal_digit_chars()[a as int]);
        assert(decimal(b)[0] == decimal_digit_chars()[b as int]);
    }
}

/// `needle` occurs in `hay` at position `i`.
pub open spec fn occurs_at(hay: Seq<char>, needle: Seq<char>, i: int) -> bool {
    0 <= i && i + needle.len() <= hay.len() && hay.subrange(i, i + needle.len()) == needle
}

/// `needle` occurs somewhere in `hay` (`str::contains` with a string pattern).
pub open spec fn contains_seq(hay: Seq<char>, needle: Seq<char>) -> bool {
    exists|i: int| occurs_at(hay, needle, i)
}

/// Whether `needle` occurs in `hay`.
pub fn str_contains(hay: &str, needle: &str) -> (r: bool)
    ensures
        r == contains_seq(hay@, needle@),
{
    let n = hay.unicode_len();
    let m = needle.unicode_len();
    if m > n {
        assert forall|i: int| !occurs_at(hay@, needle@, i) by {}
        return false;
    }
    let mut i: usize = 0;
    while i <= n - m
        invariant
            n == hay@.len(),
            m == needle@.len(),
            m <= n,
            0 <= i <= n - m + 1,
            forall|k: int| 0 <= k < i ==> !occurs_at(hay@, needle@, k),
        decreases n - m + 1 - i,
    {
        let mut j: usize = 0;
        let mut all = true;
        while j < m
            invariant
                n == hay@.len(),
                m == needle@.len(),
                i + m <= n,
                0 <= j <= m,
                all == (forall|k: int| 0 <= k < j ==> hay@[i + k] == #[trigger] needle@[k]),
            decreases m - j,
        {
            if hay.get_char(i + j) != needle.get_char(j) {
                all = false;
            }
            j = j + 1;
        }
        if all {
            assert(hay@.subrange(i as int, i + m) =~= needle@);
            assert(occurs_at(hay@, needle@, i as int));
            return true;
        }
        assert(!occurs_at(hay@, needle@, i as int)) by {
            if hay@.subrange(i as int, i + m) == needle@ {
                assert forall|k: int| 0 <= k < m implies hay@[i + k] == #[trigger] needle@[k] by {
                    assert(hay@.subrange(i as int, i + m)[k] == hay@[i + k]);
                }
            }
        }
        i = i + 1;
    }
    assert forall|k: int| !occurs_at(hay@, needle@, k) by {
        if occurs_at(hay@, needle@, k) {
            assert(0 <= k < i);
        }
    }
    false
}

/// `char::to_ascii_lowercase`: `A-Z` become `a-z`, every other character
/// stays.
pub open spec fn ascii_lower_char(c: char) -> char {
    if 'A' <= c <= 'Z' {
        ((c as u32) + 32) as char
    } else {
        c
    }
}

/// `char::to_ascii_uppercase`: `a-z` become `A-Z`, every other character
/// stays.
pub open spec fn ascii_upper_char(c: char) -> char {
    if 'a' <= c <= 'z' {
        ((c as u32) - 32) as char
    } else {
        c
    }
}

/// `str::to_ascii_lowercase`, character by character.
pub open spec fn ascii_lowercase(s: Seq<char>) -> Seq<char> {
    s.map_values(|c: char| ascii_lower_char(c))
}

/// `str::to_ascii_uppercase`, character by character.
pub open spec fn ascii_uppercase(s: Seq<char>) -> Seq<char> {
    s.map_values(|c: char| ascii_upper_char(c))
}

/// What `str::to_lowercase` gives: the string lowered by Unicode's lowercase
/// mapping, which may look at a character's neighbours (a final `Σ` becomes
/// `ς`) and may change the length.
pub uninterp spec fn unicode_lowercase(s: Seq<char>) -> Seq<char>;

/// The lowercase form of a string. On ASCII text Unicode's mapping lowers
/// `A-Z` and keeps every other character, so it is `ascii_lowercase` there.
pub open spec fn lowercase(s: Seq<char>) -> Seq<char> {
    if is_ascii_chars(s) {
        ascii_lowercase(s)
    } else {
        unicode_lowercase(s)
    }
}

/// Calls `str::to_lowercase`; claims that the result is the named Unicode
/// lowercase form of the input, a function of the input alone, and that on
/// ASCII text it lowers exactly the letters `A-Z`.
#[verifier::external_body]
pub(crate) fn to_lowercase(s: &str) -> (lower: String)
    ensures
        lower@ == unicode_lowercase(s@),
        lower@ == lowercase(s@),
{
    s.to_lowercase()
}

/// Lowering ignores case: a character and its uppercase form lower alike,
/// lowering twice is lowering once, and both stay ASCII.
pub proof fn lemma_ascii_case_fold(c: char)
    ensures
        ascii_lower_char(ascii_upper_char(c)) == ascii_lower_char(c),
        ascii_lower_char(ascii_lower_char(c)) == ascii_lower_char(c),
        '\0' <= c <= '\u{7f}' ==> '\0' <= ascii_upper_char(c) <= '\u{7f}',
        '\0' <= c <= '\u{7f}' ==> '\0' <= ascii_lower_char(c) <= '\u{7f}',
{
}

/// Two texts that differ only in the case of ASCII letters lower alike.
pub proof fn lemma_ascii_lowercase_of_uppercase(s: Seq<char>)
    ensures
        ascii_lowercase(ascii_uppercase(s)) == ascii_lowercase(s),
        ascii_lowercase(ascii_lowercase(s)) == ascii_lowercase(s),
        is_ascii_chars(s) ==> is_ascii_chars(ascii_uppercase(s)),
        is_ascii_chars(s) ==> is_ascii_chars(ascii_lowercase(s)),
{
    assert forall|i: int| 0 <= i < s.len() implies ascii_lowercase(ascii_uppercase(s))[i]
        == ascii_lowercase(s)[i] && ascii_lowercase(ascii_lowercase(s))[i] == ascii_lowercase(s)[i] by {
        lemma_ascii_case_fold(s[i]);
    }
    assert(ascii_lowercase(ascii_uppercase(s)) =~= ascii_lowercase(s));
    assert(ascii_lowercase(ascii_lowercase(s)) =~= ascii_lowercase(s));
    if is_ascii_chars(s) {
        assert forall|i: int| 0 <= i < ascii_uppercase(s).len() implies '\0' <= #[trigger] ascii_uppercase(s)[i] <= '\u{7f}' by {
            lemma_ascii_case_fold(s[i]);
        }
        assert forall|i: int| 0 <= i < ascii_lowercase(s).len() implies '\0' <= #[trigger] ascii_lowercase(s)[i] <= '\u{7f}' by {
            lemma_ascii_case_fold(s[i]);
        }
    }
}

} // verus!
