//! Discovery of payable services in the x402 directory.
//!
//! The directory is fetched page by page (`limit`, `offset`); from a page,
//! services priced on a testnet are dropped, an optional text query filters
//! the rest, and each remaining entry becomes a [`Service`] with a one-line
//! description and a USDC price.
use vstd::prelude::*;
use vstd::string::*;
use vstd::utf8::*;
use crate::text::{
    ascii_lowercase, ascii_uppercase, contains_seq, decimal, decimal_string,
    lemma_ascii_lowercase_of_uppercase, lowercase, occurs_at, push_decimal, str_contains,
    to_lowercase,
};

verus! {

broadcast use {vstd::utf8::encode_utf8_decode_utf8, vstd::utf8::encode_utf8_valid_utf8};

// ---------------------------------------------------------------------------
// Data
// ---------------------------------------------------------------------------

/// The payment protocols a service can be paid with.
#[derive(Debug, Clone, Copy, PartialEq, Eq, Structural)]
pub enum Protocol {
    X402,
}

/// One way to pay for a directory entry.
#[derive(Debug, Clone)]
pub struct PaymentRequirements {
    pub network: String,
    pub description: Option<String>,
    /// The price in USDC base units (millionths), as a decimal string.
    pub amount: String,
}

/// What the directory says about an entry beyond its payment terms.
#[derive(Debug, Clone)]
pub struct ServiceMetadata {
    pub description: Option<String>,
}

/// An entry of the x402 directory.
#[derive(Debug, Clone)]
pub struct DiscoveredService {
    pub resource: String,
    pub accepts: Vec<PaymentRequirements>,
    pub metadata: Option<ServiceMetadata>,
}

/// The paging block of a directory response.
#[derive(Debug, Clone, Copy)]
pub struct Pagination {
    pub total: u64,
}

/// A page of the x402 directory as it comes back from the server.
#[derive(Debug, Clone)]
pub struct DiscoveryResponse {
    pub items: Vec<DiscoveredService>,
    pub pagination: Option<Pagination>,
}

/// A fetched page: its entries and the directory's total size.
#[derive(Debug, Clone)]
pub struct FetchResult {
    pub items: Vec<DiscoveredService>,
    pub total: u64,
}

/// A payable service.
#[derive(Debug, Clone)]
pub struct Service {
    pub protocol: Protocol,
    pub name: String,
    pub url: String,
    pub description: String,
    pub price: String,
    pub network: String,
    pub tags: Vec<String>,
}

/// A service as text.
pub struct ServiceView {
    pub protocol: Protocol,
    pub name: Seq<char>,
    pub url: Seq<char>,
    pub description: Seq<char>,
    pub price: Seq<char>,
    pub network: Seq<char>,
    pub tags: Seq<Seq<char>>,
}

impl View for Service {
    type V = ServiceView;

    open spec fn view(&self) -> ServiceView {
        ServiceView {
            protocol: self.protocol,
            name: self.name@,
            url: self.url@,
            description: self.description@,
            price: self.price@,
            network: self.network@,
            tags: self.tags@.map_values(|t: String| t@),
        }
    }
}

/// The services of a page, with the paging that was asked for.
#[derive(Debug, Clone)]
pub struct DiscoverResult {
    pub services: Vec<Service>,
    pub total: u64,
    pub limit: u64,
    pub offset: u64,
}

// ---------------------------------------------------------------------------
// Paging
// ---------------------------------------------------------------------------

/// The page size used when none is given.
pub open spec fn default_limit() -> u64 {
    100
}

/// The paging of a discovery request: at most 100 entries from the start,
/// unless told otherwise.
pub fn discovery_paging(limit: Option<u64>, offset: Option<u64>) -> (paging: (u64, u64))
    ensures
        paging.0 == match limit {
            Some(l) => l,
            None => default_limit(),
        },
        paging.1 == match offset {
            Some(o) => o,
            None => 0,
        },
{
    let limit = match limit {
        Some(l) => l,
        None => 100,
    };
    let offset = match offset {
        Some(o) => o,
        None => 0,
    };
    (limit, offset)
}

/// The entries of a response page and the directory's total, which is 0
/// where the response has no paging block.
pub fn fetch_result(body: DiscoveryResponse) -> (r: FetchResult)
    ensures
        r.items@ == body.items@,
        r.total == match body.pagination {
            Some(p) => p.total,
            None => 0,
        },
{
    let total = match body.pagination {
        Some(p) => p.total,
        None => 0,
    };
    FetchResult { items: body.items, total }
}

// ---------------------------------------------------------------------------
// Decimal amounts
// ---------------------------------------------------------------------------

pub open spec fn is_decimal_digit(c: char) -> bool {
    '0' <= c && c <= '9'
}

pub open spec fn digit_value(c: char) -> nat {
    (c as int - '0' as int) as nat
}

pub open spec fn all_decimal_digits(s: Seq<char>) -> bool {
    forall|i: int| 0 <= i < s.len() ==> is_decimal_digit(#[trigger] s[i])
}

/// The value of a string of decimal digits.
pub open spec fn digits_value(s: Seq<char>) -> nat
    decreases s.len(),
{
    if s.len() == 0 {
        0
    } else {
        digits_value(s.drop_last()) * 10 + digit_value(s.last())
    }
}

/// The digits of an unsigned integer literal: the text after an optional `+`.
pub open spec fn unsigned_digits(s: Seq<char>) -> Seq<char> {
    if s.len() > 0 && s[0] == '+' {
        s.drop_first()
    } else {
        s
    }
}

/// `str::parse::<u128>`: an optional `+`, then one or more decimal digits
/// whose value fits in a `u128`.
pub open spec fn parsed_u128(s: Seq<char>) -> Option<nat> {
    let d = unsigned_digits(s);
    if d.len() > 0 && all_decimal_digits(d) && digits_value(d) <= u128::MAX {
        Some(digits_value(d))
    } else {
        None
    }
}

/// A digit string is worth at least as much as each of its prefixes.
proof fn lemma_digits_value_prefix(s: Seq<char>, k: int)
    requires
        0 <= k <= s.len(),
        all_decimal_digits(s),
    ensures
        digits_value(s.take(k)) <= digits_value(s),
    decreases s.len(),
{
    if k < s.len() {
        assert(s.drop_last().take(k) =~= s.take(k));
        assert(all_decimal_digits(s.drop_last())) by {
            assert forall|i: int| 0 <= i < s.drop_last().len() implies is_decimal_digit(
                #[trigger] s.drop_last()[i],
            ) by {
                assert(s.drop_last()[i] == s[i]);
            }
        }
        lemma_digits_value_prefix(s.drop_last(), k);
    } else {
        assert(s.take(k) =~= s);
    }
}

/// Parses an unsigned 128-bit decimal integer as `str::parse::<u128>` does.
pub fn parse_u128(s: &str) -> (r: Option<u128>)
    ensures
        match parsed_u128(s@) {
            Some(v) => r == Some(v as u128),
            None => r is None,
        },
{
    let n = s.unicode_len();
    let mut start: usize = 0;
    if n > 0 && s.get_char(0) == '+' {
        start = 1;
    }
    let ghost d = unsigned_digits(s@);
    assert(d =~= s@.subrange(start as int, n as int));
    if start == n {
        assert(d.len() == 0);
        assert(parsed_u128(s@) is None);
        return None;
    }
    let mut i: usize = start;
    while i < n
        invariant
            start <= i <= n,
            n == s@.len(),
            d == s@.subrange(start as int, n as int),
            d == unsigned_digits(s@),
            forall|k: int| start <= k < i ==> is_decimal_digit(#[trigger] s@[k]),
        decreases n - i,
    {
        let c = s.get_char(i);
        if !('0' <= c && c <= '9') {
            assert(!is_decimal_digit(d[i - start]));
            return None;
        }
        i = i + 1;
    }
    assert(all_decimal_digits(d)) by {
        assert forall|k: int| 0 <= k < d.len() implies is_decimal_digit(#[trigger] d[k]) by {
            assert(d[k] == s@[start + k]);
        }
    }
    let mut v: u128 = 0;
    let mut i: usize = start;
    assert(d.take(0) =~= Seq::<char>::empty());
    while i < n
        invariant
            start <= i <= n,
            n == s@.len(),
            d == s@.subrange(start as int, n as int),
            d == unsigned_digits(s@),
            all_decimal_digits(d),
            v as nat == digits_value(d.take(i - start)),
        decreases n - i,
    {
        let c = s.get_char(i);
        assert(c == d[i - start]);
        assert(is_decimal_digit(c));
        let dv = (c as u32 - 48u32) as u128;
        assert(dv as nat == digit_value(c));
        assert(d.take(i - start + 1).drop_last() =~= d.take(i - start));
        assert(d.take(i - start + 1).last() == d[i - start]);
        if v > (u128::MAX - dv) / 10 {
            assert(v * 10 + dv > u128::MAX) by (nonlinear_arith)
                requires
                    v > (u128::MAX - dv) / 10,
                    dv < 10,
            ;
            proof {
                let k = i - start;
                assert(d.take(k + 1).last() == d[k]);
                assert(digits_value(d.take(k + 1)) == digits_value(d.take(k)) * 10 + digit_value(
                    d[k],
                ));
                lemma_digits_value_prefix(d, k + 1);
                assert(digits_value(d) > u128::MAX);
            }
            return None;
        }
        assert(v * 10 + dv <= u128::MAX) by (nonlinear_arith)
            requires
                v <= (u128::MAX - dv) / 10,
                dv < 10,
        ;
        v = v * 10 + dv;
        i = i + 1;
    }
    assert(d.take(n - start) =~= d);
    Some(v)
}

// ---------------------------------------------------------------------------
// USDC prices
// ---------------------------------------------------------------------------

/// A numeral left-padded with zeros to at least `width` characters
/// (`{:0width$}`).
pub open spec fn zero_padded(d: Seq<char>, width: nat) -> Seq<char> {
    let pad: nat = if d.len() < width {
        (width - d.len()) as nat
    } else {
        0
    };
    Seq::new(pad, |i: int| '0') + d
}

/// A string without its trailing `0` characters (`trim_end_matches('0')`).
pub open spec fn trim_trailing_zeros(s: Seq<char>) -> Seq<char>
    decreases s.len(),
{
    if s.len() > 0 && s.last() == '0' {
        trim_trailing_zeros(s.drop_last())
    } else {
        s
    }
}

/// The fraction digits of a price: the six-digit fraction without trailing
/// zeros, or `00` where nothing is left.
pub open spec fn usdc_fraction_text(frac: nat) -> Seq<char> {
    let t = trim_trailing_zeros(zero_padded(decimal(frac), 6));
    if t.len() == 0 {
        seq!['0', '0']
    } else {
        t
    }
}

/// A USDC amount in base units (millionths) as a dollar price.
pub open spec fn usdc_text(amount: nat) -> Seq<char> {
    "$"@ + decimal(amount / 1_000_000) + "."@ + usdc_fraction_text(amount % 1_000_000)
}

/// The amount that a price string stands for: its value, or 0 where it is
/// not an unsigned 128-bit decimal integer.
pub open spec fn usdc_amount(s: Seq<char>) -> nat {
    match parsed_u128(s) {
        Some(v) => v,
        None => 0,
    }
}

/// The numeral of `n` padded with zeros to six characters.
fn six_digit_fraction(n: u128) -> (s: String)
    ensures
        s@ == zero_padded(decimal(n as nat), 6),
{
    let digits = decimal_string(n);
    let len = digits.as_str().unicode_len();
    let pad: usize = if len < 6 {
        6 - len
    } else {
        0
    };
    let mut s = String::new();
    let mut k: usize = 0;
    while k < pad
        invariant
            0 <= k <= pad,
            s@ == Seq::new(k as nat, |i: int| '0'),
        decreases pad - k,
    {
        proof {
            reveal_strlit("0");
        }
        s.append("0");
        assert(s@ =~= Seq::new((k + 1) as nat, |i: int| '0'));
        k = k + 1;
    }
    s.append(digits.as_str());
    assert(s@ =~= zero_padded(decimal(n as nat), 6));
    s
}

/// The length of `s` without its trailing zeros.
fn trimmed_zeros_len(s: &str) -> (end: usize)
    ensures
        end <= s@.len(),
        trim_trailing_zeros(s@) == s@.take(end as int),
{
    let mut end = s.unicode_len();
    assert(s@.take(end as int) =~= s@);
    while end > 0 && s.get_char(end - 1) == '0'
        invariant
            end <= s@.len(),
            trim_trailing_zeros(s@) == trim_trailing_zeros(s@.take(end as int)),
        decreases end,
    {
        assert(s@.take(end as int).drop_last() =~= s@.take(end - 1));
        end = end - 1;
    }
    end
}

/// Formats an amount of USDC base units as a dollar price, `$<whole>.<fraction>`,
/// where an amount that does not parse counts as 0.
///
/// `"1500000"` gives `$1.5`, `"1000000"` gives `$1.00`, `"10000"` gives `$0.01`.
pub fn format_usdc(amount_str: &str) -> (price: String)
    ensures
        price@ == usdc_text(usdc_amount(amount_str@)),
{
    let amount: u128 = match parse_u128(amount_str) {
        Some(v) => v,
        None => 0,
    };
    let whole = amount / 1_000_000;
    let frac = amount % 1_000_000;
    let frac_str = six_digit_fraction(frac);
    let end = trimmed_zeros_len(frac_str.as_str());
    let mut price = String::from_str("$");
    push_decimal(&mut price, whole);
    price.append(".");
    if end == 0 {
        proof {
            reveal_strlit("00");
        }
        price.append("00");
    } else {
        price.append(frac_str.as_str().substring_char(0, end));
    }
    assert(price@ =~= usdc_text(usdc_amount(amount_str@)));
    price
}

// ---------------------------------------------------------------------------
// One-line descriptions
// ---------------------------------------------------------------------------

/// The text before the first `\n`.
pub open spec fn before_newline(s: Seq<char>) -> Seq<char>
    decreases s.len(),
{
    if s.len() == 0 || s[0] == '\n' {
        Seq::empty()
    } else {
        seq![s[0]] + before_newline(s.drop_first())
    }
}

/// The first line as `str::lines` yields it: the text before the first
/// `\n`, without a `\r` just before that `\n`; the whole string where there is
/// no `\n`; empty for an empty string.
pub open spec fn first_line(s: Seq<char>) -> Seq<char> {
    let l = before_newline(s);
    if s.contains('\n') && l.len() > 0 && l.last() == '\r' {
        l.drop_last()
    } else {
        l
    }
}

/// Where a line longer than `max` bytes is cut: three bytes earlier, to make
/// room for `...`.
pub open spec fn cut_point(max: nat) -> nat {
    if max >= 3 {
        (max - 3) as nat
    } else {
        0
    }
}

/// Truncation can cut the first line where it must: where the line is longer
/// than `max` bytes, the cut falls between two characters.
pub open spec fn truncate_defined(s: Seq<char>, max: nat) -> bool {
    let b = encode_utf8(first_line(s));
    b.len() > max ==> is_char_boundary(b, cut_point(max) as int)
}

/// The first line, cut after `max - 3` bytes and ended with `...` where it is
/// longer than `max` bytes.
pub open spec fn truncated(s: Seq<char>, max: nat) -> Seq<char> {
    let l = first_line(s);
    let b = encode_utf8(l);
    if b.len() > max {
        decode_utf8(b.take(cut_point(max) as int)) + "..."@
    } else {
        l
    }
}

proof fn lemma_before_newline(s: Seq<char>, k: int)
    requires
        0 <= k <= s.len(),
        forall|j: int| 0 <= j < k ==> s[j] != '\n',
        k == s.len() || s[k] == '\n',
    ensures
        before_newline(s) == s.take(k),
    decreases s.len(),
{
    if s.len() == 0 {
        assert(s.take(k) =~= Seq::<char>::empty());
    } else if k == 0 {
        assert(s.take(k) =~= Seq::<char>::empty());
    } else {
        lemma_before_newline(s.drop_first(), k - 1);
        assert(s.take(k) =~= seq![s[0]] + s.drop_first().take(k - 1));
    }
}

/// The index where the first line ends, in characters.
fn first_line_len(s: &str) -> (end: usize)
    ensures
        end <= s@.len(),
        first_line(s@) == s@.take(end as int),
{
    let n = s.unicode_len();
    let mut i: usize = 0;
    while i < n && s.get_char(i) != '\n'
        invariant
            i <= n,
            n == s@.len(),
            forall|j: int| 0 <= j < i ==> s@[j] != '\n',
        decreases n - i,
    {
        i = i + 1;
    }
    proof {
        lemma_before_newline(s@, i as int);
        if i < n {
            assert(s@.contains('\n')) by {
                assert(s@[i as int] == '\n');
            }
        } else {
            assert(!s@.contains('\n'));
        }
    }
    if i < n && i > 0 && s.get_char(i - 1) == '\r' {
        assert(s@.take(i as int).drop_last() =~= s@.take(i - 1));
        i - 1
    } else {
        i
    }
}

/// Whether `truncate(s, max)` is defined: the cut, if one is made, falls
/// between two characters.
pub fn truncate_is_defined(s: &str, max: usize) -> (ok: bool)
    ensures
        ok == truncate_defined(s@, max as nat),
{
    let end = first_line_len(s);
    let line = s.substring_char(0, end);
    assert(line@ =~= first_line(s@));
    let cut = if max >= 3 {
        max - 3
    } else {
        0
    };
    let r = line.as_bytes().len() <= max || line.is_char_boundary(cut);
    assert(line.spec_bytes() == encode_utf8(first_line(s@)));
    assert(cut as nat == cut_point(max as nat));
    assert(r == (encode_utf8(first_line(s@)).len() <= max || is_char_boundary(encode_utf8(first_line(s@)), cut as int)));
    r
}

/// The first line of `s`, shortened to `max` bytes with a `...` ending where
/// it is longer.
pub fn truncate(s: &str, max: usize) -> (t: String)
    requires
        truncate_defined(s@, max as nat),
    ensures
        t@ == truncated(s@, max as nat),
{
    let end = first_line_len(s);
    let line = s.substring_char(0, end);
    assert(line@ =~= first_line(s@));
    if line.as_bytes().len() > max {
        let cut = if max >= 3 {
            max - 3
        } else {
            0
        };
        let (head, _rest) = line.split_at(cut);
        proof {
            assert(head.spec_bytes() =~= line.spec_bytes().take(cut as int));
            assert(decode_utf8(encode_utf8(head@)) == head@);
        }
        let mut t = String::from_str(head);
        t.append("...");
        t
    } else {
        String::from_str(line)
    }
}

// ---------------------------------------------------------------------------
// Selecting services
// ---------------------------------------------------------------------------

/// The networks that are testnets; services priced on them are dropped.
pub open spec fn is_testnet(network: Seq<char>) -> bool {
    ||| contains_seq(network, "base-sepolia"@)
    ||| contains_seq(network, "eip155:84532"@)
    ||| contains_seq(network, "eip155:11155111"@)
    ||| contains_seq(network, "solana-devnet"@)
}

/// Whether a network name mentions a testnet.
pub fn network_is_testnet(network: &str) -> (r: bool)
    ensures
        r == is_testnet(network@),
{
    str_contains(network, "base-sepolia") || str_contains(network, "eip155:84532")
        || str_contains(network, "eip155:11155111") || str_contains(network, "solana-devnet")
}

/// The description an entry carries: that of its first payment option, else
/// that of its metadata, else nothing.
pub open spec fn entry_description(item: DiscoveredService) -> Seq<char> {
    match item.accepts@[0].description {
        Some(d) => d@,
        None => match item.metadata {
            Some(m) => match m.description {
                Some(d) => d@,
                None => Seq::empty(),
            },
            None => Seq::empty(),
        },
    }
}

/// An optional text contains the lowercased query, ignoring case.
pub open spec fn mentions(text: Option<String>, query: Seq<char>) -> bool {
    match text {
        Some(t) => contains_seq(lowercase(t@), lowercase(query)),
        None => false,
    }
}

/// The query, ignoring case, occurs in the entry's URL, in the description
/// of its first payment option, or in the description of its metadata.
pub open spec fn entry_matches(item: DiscoveredService, query: Seq<char>) -> bool {
    ||| contains_seq(lowercase(item.resource@), lowercase(query))
    ||| mentions(item.accepts@[0].description, query)
    ||| match item.metadata {
        Some(m) => mentions(m.description, query),
        None => false,
    }
}

/// An entry is kept when it has a payment option, its first one is not on a
/// testnet, and it matches the query if there is one.
pub open spec fn entry_selected(item: DiscoveredService, query: Option<Seq<char>>) -> bool {
    &&& item.accepts@.len() > 0
    &&& !is_testnet(item.accepts@[0].network@)
    &&& match query {
        Some(q) => entry_matches(item, q),
        None => true,
    }
}

/// The service a kept entry becomes: named and located by its URL, with an
/// 80-byte one-line description, the USDC price and the network of its first
/// payment option, and no tags.
pub open spec fn entry_service(item: DiscoveredService) -> ServiceView {
    ServiceView {
        protocol: Protocol::X402,
        name: item.resource@,
        url: item.resource@,
        description: truncated(entry_description(item), 80),
        price: usdc_text(usdc_amount(item.accepts@[0].amount@)),
        network: item.accepts@[0].network@,
        tags: Seq::empty(),
    }
}

/// The services of a page, in the directory's order.
pub open spec fn selected_services(items: Seq<DiscoveredService>, query: Option<Seq<char>>) -> Seq<
    ServiceView,
>
    decreases items.len(),
{
    if items.len() == 0 {
        Seq::empty()
    } else {
        let rest = selected_services(items.drop_last(), query);
        if entry_selected(items.last(), query) {
            rest.push(entry_service(items.last()))
        } else {
            rest
        }
    }
}

/// Every kept entry's description can be truncated to 80 bytes.
pub open spec fn descriptions_truncatable(
    items: Seq<DiscoveredService>,
    query: Option<Seq<char>>,
) -> bool {
    forall|i: int|
        0 <= i < items.len() && entry_selected(#[trigger] items[i], query) ==> truncate_defined(
            entry_description(items[i]),
            80,
        )
}

pub open spec fn query_view(query: Option<&str>) -> Option<Seq<char>> {
    match query {
        Some(q) => Some(q@),
        None => None,
    }
}

/// Whether an optional text contains the (lowercased) needle, ignoring case.
fn optional_mentions(text: &Option<String>, lower_query: &str, Ghost(query): Ghost<Seq<char>>) -> (r: bool)
    requires
        lower_query@ == lowercase(query),
    ensures
        r == mentions(*text, query),
{
    match text {
        Some(t) => {
            let lower = to_lowercase(t.as_str());
            str_contains(lower.as_str(), lower_query)
        },
        None => false,
    }
}

/// The description an entry carries.
fn description_of(item: &DiscoveredService) -> (d: &str)
    requires
        item.accepts@.len() > 0,
    ensures
        d@ == entry_description(*item),
{
    match &item.accepts[0].description {
        Some(d) => d.as_str(),
        None => match &item.metadata {
            Some(m) => match &m.description {
                Some(d) => d.as_str(),
                None => {
                    proof {
                        reveal_strlit("");
                    }
                    ""
                },
            },
            None => {
                proof {
                    reveal_strlit("");
                }
                ""
            },
        },
    }
}

/// Whether an entry is kept.
fn is_selected(item: &DiscoveredService, query: Option<&str>, lower_query: &Option<String>) -> (r: bool)
    requires
        match query {
            Some(q) => lower_query matches Some(l) && l@ == lowercase(q@),
            None => true,
        },
    ensures
        r == entry_selected(*item, query_view(query)),
{
    if item.accepts.len() == 0 {
        return false;
    }
    let accept = &item.accepts[0];
    if network_is_testnet(accept.network.as_str()) {
        return false;
    }
    match query {
        None => true,
        Some(q) => {
            let lq = match lower_query {
                Some(l) => l.as_str(),
                None => q,
            };
            let url = to_lowercase(item.resource.as_str());
            let url_match = str_contains(url.as_str(), lq);
            let accepts_desc = optional_mentions(&accept.description, lq, Ghost(q@));
            let meta_desc = match &item.metadata {
                Some(m) => optional_mentions(&m.description, lq, Ghost(q@)),
                None => false,
            };
            url_match || accepts_desc || meta_desc
        },
    }
}

/// The lowercased query, once.
fn lower_query(query: Option<&str>) -> (l: Option<String>)
    ensures
        match query {
            Some(q) => l matches Some(s) && s@ == lowercase(q@),
            None => l is None,
        },
{
    match query {
        Some(q) => Some(to_lowercase(q)),
        None => None,
    }
}

/// Whether every entry that the query keeps has a description that can be
/// truncated to 80 bytes, so that [`select_services`] may be called.
pub fn descriptions_truncate_cleanly(items: &Vec<DiscoveredService>, query: Option<&str>) -> (ok: bool)
    ensures
        ok == descriptions_truncatable(items@, query_view(query)),
{
    let lq = lower_query(query);
    let mut i: usize = 0;
    while i < items.len()
        invariant
            0 <= i <= items@.len(),
            match query {
                Some(q) => lq matches Some(s) && s@ == lowercase(q@),
                None => lq is None,
            },
            forall|k: int|
                0 <= k < i && entry_selected(#[trigger] items@[k], query_view(query))
                    ==> truncate_defined(entry_description(items@[k]), 80),
        decreases items@.len() - i,
    {
        let item = &items[i];
        if is_selected(item, query, &lq) {
            if !truncate_is_defined(description_of(item), 80) {
                return false;
            }
        }
        i = i + 1;
    }
    true
}

/// The services of a fetched page: entries without a payment option or
/// priced on a testnet are dropped, then those that do not match the query
/// (ignoring case, in the URL or a description), and each remaining entry
/// becomes a service.
pub fn select_services(
    fetched: FetchResult,
    query: Option<&str>,
    limit: u64,
    offset: u64,
) -> (r: DiscoverResult)
    requires
        descriptions_truncatable(fetched.items@, query_view(query)),
    ensures
        r.services@.map_values(|s: Service| s@) == selected_services(
            fetched.items@,
            query_view(query),
        ),
        r.total == fetched.total,
        r.limit == limit,
        r.offset == offset,
{
    let lq = lower_query(query);
    let items = fetched.items;
    let mut services: Vec<Service> = Vec::new();
    let mut i: usize = 0;
    while i < items.len()
        invariant
            0 <= i <= items@.len(),
            items@ == fetched.items@,
            descriptions_truncatable(items@, query_view(query)),
            match query {
                Some(q) => lq matches Some(s) && s@ == lowercase(q@),
                None => lq is None,
            },
            services@.map_values(|s: Service| s@) == selected_services(
                items@.take(i as int),
                query_view(query),
            ),
        decreases items@.len() - i,
    {
        let item = &items[i];
        assert(items@.take(i + 1).drop_last() =~= items@.take(i as int));
        assert(items@.take(i + 1).last() == items@[i as int]);
        if is_selected(item, query, &lq) {
            let accept = &item.accepts[0];
            let description = truncate(description_of(item), 80);
            let price = format_usdc(accept.amount.as_str());
            let tags: Vec<String> = Vec::new();
            let svc = Service {
                protocol: Protocol::X402,
                name: item.resource.clone(),
                url: item.resource.clone(),
                description,
                price,
                network: accept.network.clone(),
                tags,
            };
            assert(svc@.tags =~= Seq::<Seq<char>>::empty());
            let ghost before = services@;
            services.push(svc);
            assert(services@.map_values(|s: Service| s@) =~= before.map_values(|s: Service| s@).push(
                svc@,
            ));
        }
        i = i + 1;
    }
    assert(items@.take(items@.len() as int) =~= items@);
    DiscoverResult { services, total: fetched.total, limit, offset }
}

/// What discovery answers for a fetched page: its services, or `None` where
/// a kept entry's description cannot be cut at 80 bytes (the cut would fall
/// inside a character).
pub open spec fn page_services(items: Seq<DiscoveredService>, query: Option<Seq<char>>) -> Option<
    Seq<ServiceView>,
> {
    if descriptions_truncatable(items, query) {
        Some(selected_services(items, query))
    } else {
        None
    }
}

/// The services of a fetched page, with its paging, where every kept
/// description can be cut at 80 bytes; `None` where one cannot.
pub fn discover_page(
    fetched: FetchResult,
    query: Option<&str>,
    limit: u64,
    offset: u64,
) -> (r: Option<DiscoverResult>)
    ensures
        r is Some <==> page_services(fetched.items@, query_view(query)) is Some,
        r matches Some(d) ==> {
            &&& Some(d.services@.map_values(|s: Service| s@)) == page_services(
                fetched.items@,
                query_view(query),
            )
            &&& d.total == fetched.total
            &&& d.limit == limit
            &&& d.offset == offset
        },
{
    if descriptions_truncate_cleanly(&fetched.items, query) {
        Some(select_services(fetched, query, limit, offset))
    } else {
        None
    }
}

// ---------------------------------------------------------------------------
// Laws
// ---------------------------------------------------------------------------

proof fn lemma_encode_utf8_concat(a: Seq<char>, b: Seq<char>)
    ensures
        encode_utf8(a + b) == encode_utf8(a) + encode_utf8(b),
    decreases a.len(),
{
    if a.len() > 0 {
        assert((a + b).drop_first() =~= a.drop_first() + b);
        lemma_encode_utf8_concat(a.drop_first(), b);
        assert((a + b)[0] == a[0]);
        assert(encode_utf8(a + b) =~= encode_utf8(a) + encode_utf8(b));
    } else {
        assert(a + b =~= b);
    }
}

/// A truncated description fits: it takes at most `max` bytes (for `max` of
/// at least 3, room for the `...`).
pub proof fn lemma_truncated_fits(s: Seq<char>, max: nat)
    requires
        max >= 3,
        truncate_defined(s, max),
    ensures
        encode_utf8(truncated(s, max)).len() <= max,
{
    let l = first_line(s);
    let b = encode_utf8(l);
    if b.len() > max {
        let cut = cut_point(max) as int;
        let head = b.take(cut);
        assert(head == b.subrange(0, cut));
        valid_utf8_split(b, cut);
        decode_utf8_encode_utf8(head);
        reveal_strlit("...");
        assert(encode_utf8("..."@).len() == 3) by {
            reveal_with_fuel(encode_utf8, 4);
        }
        lemma_encode_utf8_concat(decode_utf8(head), "..."@);
    }
}

/// Every service that discovery returns is the service of a directory entry
/// that has a payment option, is not priced on a testnet, and matches the
/// query if there is one.
pub proof fn lemma_services_come_from_kept_entries(
    items: Seq<DiscoveredService>,
    query: Option<Seq<char>>,
    j: int,
)
    requires
        0 <= j < selected_services(items, query).len(),
    ensures
        exists|i: int|
            0 <= i < items.len() && entry_selected(#[trigger] items[i], query)
                && selected_services(items, query)[j] == entry_service(items[i]),
    decreases items.len(),
{
    let rest = selected_services(items.drop_last(), query);
    let k = items.len() - 1;
    if j < rest.len() {
        lemma_services_come_from_kept_entries(items.drop_last(), query, j);
        let i = choose|i: int|
            0 <= i < items.drop_last().len() && entry_selected(
                #[trigger] items.drop_last()[i],
                query,
            ) && rest[j] == entry_service(items.drop_last()[i]);
        assert(items[i] == items.drop_last()[i]);
    } else {
        assert(items[k] == items.last());
    }
}

/// Whether an entry is kept depends on the query only through its lowercase
/// form; so does whether the kept descriptions can be cut.
proof fn lemma_selection_by_lowercase_query(
    items: Seq<DiscoveredService>,
    q1: Seq<char>,
    q2: Seq<char>,
)
    requires
        lowercase(q1) == lowercase(q2),
    ensures
        selected_services(items, Some(q1)) == selected_services(items, Some(q2)),
        descriptions_truncatable(items, Some(q1)) == descriptions_truncatable(items, Some(q2)),
    decreases items.len(),
{
    if items.len() > 0 {
        lemma_selection_by_lowercase_query(items.drop_last(), q1, q2);
    }
    assert forall|i: int| 0 <= i < items.len() implies entry_selected(items[i], Some(q1))
        == entry_selected(#[trigger] items[i], Some(q2)) by {}
}

/// Query matching ignores the case of ASCII letters: two ASCII queries that
/// differ only in the case of their letters select the same services, and
/// discovery answers them alike.
pub proof fn lemma_query_ignores_ascii_case(
    items: Seq<DiscoveredService>,
    q1: Seq<char>,
    q2: Seq<char>,
)
    requires
        is_ascii_chars(q1),
        is_ascii_chars(q2),
        ascii_lowercase(q1) == ascii_lowercase(q2),
    ensures
        selected_services(items, Some(q1)) == selected_services(items, Some(q2)),
        page_services(items, Some(q1)) == page_services(items, Some(q2)),
{
    lemma_selection_by_lowercase_query(items, q1, q2);
}

/// An ASCII query selects what its uppercase and its lowercase forms select,
/// and discovery answers the three alike.
pub proof fn lemma_query_case_forms(items: Seq<DiscoveredService>, q: Seq<char>)
    requires
        is_ascii_chars(q),
    ensures
        selected_services(items, Some(q)) == selected_services(items, Some(ascii_uppercase(q))),
        selected_services(items, Some(q)) == selected_services(items, Some(ascii_lowercase(q))),
        page_services(items, Some(q)) == page_services(items, Some(ascii_uppercase(q))),
        page_services(items, Some(q)) == page_services(items, Some(ascii_lowercase(q))),
{
    lemma_ascii_lowercase_of_uppercase(q);
    lemma_query_ignores_ascii_case(items, q, ascii_uppercase(q));
    lemma_query_ignores_ascii_case(items, q, ascii_lowercase(q));
}

/// The empty query matches every entry.
proof fn lemma_empty_query_matches(item: DiscoveredService)
    ensures
        entry_matches(item, Seq::<char>::empty()),
{
    let empty = Seq::<char>::empty();
    assert(lowercase(empty) =~= empty);
    let url = lowercase(item.resource@);
    assert(url.subrange(0, 0) =~= empty);
    assert(occurs_at(url, empty, 0));
}

/// The empty query filters nothing: it selects what no query selects, and
/// discovery answers it as it answers no query.
pub proof fn lemma_empty_query_keeps_all(items: Seq<DiscoveredService>)
    ensures
        selected_services(items, Some(Seq::<char>::empty())) == selected_services(items, None),
        page_services(items, Some(Seq::<char>::empty())) == page_services(items, None),
    decreases items.len(),
{
    if items.len() > 0 {
        lemma_empty_query_keeps_all(items.drop_last());
        lemma_empty_query_matches(items.last());
    }
    assert forall|i: int| 0 <= i < items.len() implies entry_selected(
        items[i],
        Some(Seq::<char>::empty()),
    ) == entry_selected(#[trigger] items[i], None) by {
        lemma_empty_query_matches(items[i]);
    }
}

/// The text before the first `\n` holds no `\n`, and neither does the first
/// line.
proof fn lemma_first_line_one_line(s: Seq<char>)
    ensures
        forall|i: int| 0 <= i < before_newline(s).len() ==> before_newline(s)[i] != '\n',
        forall|i: int| 0 <= i < first_line(s).len() ==> first_line(s)[i] != '\n',
    decreases s.len(),
{
    if s.len() > 0 && s[0] != '\n' {
        lemma_first_line_one_line(s.drop_first());
        let r = before_newline(s.drop_first());
        assert forall|i: int| 0 <= i < before_newline(s).len() implies before_newline(s)[i]
            != '\n' by {
            if i > 0 {
                assert(before_newline(s)[i] == r[i - 1]);
            }
        }
    }
    assert forall|i: int| 0 <= i < first_line(s).len() implies first_line(s)[i] != '\n' by {
        assert(first_line(s)[i] == before_newline(s)[i]);
    }
}

/// A text without `\n` is its own first line.
proof fn lemma_first_line_of_line(x: Seq<char>)
    requires
        forall|i: int| 0 <= i < x.len() ==> x[i] != '\n',
    ensures
        first_line(x) == x,
{
    lemma_before_newline(x, x.len() as int);
    assert(x.take(x.len() as int) =~= x);
    assert(!x.contains('\n'));
}

/// Truncating twice is truncating once: a truncated description can be
/// truncated again to the same length, and comes back unchanged (for every
/// `max`; below 3 both give `...`).
pub proof fn lemma_truncate_idempotent(s: Seq<char>, max: nat)
    requires
        truncate_defined(s, max),
    ensures
        truncate_defined(truncated(s, max), max),
        truncated(truncated(s, max), max) == truncated(s, max),
{
    let l = first_line(s);
    let b = encode_utf8(l);
    lemma_first_line_one_line(s);
    if b.len() <= max {
        lemma_first_line_of_line(l);
    } else {
        let cut = cut_point(max) as int;
        let head = b.take(cut);
        assert(head == b.subrange(0, cut));
        decode_utf8_split(b, cut);
        valid_utf8_split(b, cut);
        decode_utf8_encode_utf8(head);
        let h = decode_utf8(head);
        assert(l == h + decode_utf8(b.subrange(cut, b.len() as int)));
        reveal_strlit("...");
        let t = h + "..."@;
        assert forall|i: int| 0 <= i < t.len() implies t[i] != '\n' by {
            if i < h.len() {
                assert(t[i] == l[i]);
            }
        }
        lemma_first_line_of_line(t);
        lemma_encode_utf8_concat(h, "..."@);
        assert(encode_utf8("..."@).len() == 3) by {
            reveal_with_fuel(encode_utf8, 4);
        }
        if max < 3 {
            assert(head.len() == 0);
            assert(h =~= Seq::<char>::empty());
            assert(t =~= "..."@);
            assert(encode_utf8(t).take(0) =~= Seq::<u8>::empty());
            assert(decode_utf8(Seq::<u8>::empty()) =~= Seq::<char>::empty());
        }
    }
}

/// A kept entry's service is among the services of its page.
proof fn lemma_kept_entry_is_listed(items: Seq<DiscoveredService>, query: Option<Seq<char>>, i: int)
    requires
        0 <= i < items.len(),
        entry_selected(items[i], query),
    ensures
        selected_services(items, query).contains(entry_service(items[i])),
    decreases items.len(),
{
    let rest = selected_services(items.drop_last(), query);
    if i == items.len() - 1 {
        assert(selected_services(items, query) == rest.push(entry_service(items[i])));
        assert(selected_services(items, query)[rest.len() as int] == entry_service(items[i]));
    } else {
        assert(items.drop_last()[i] == items[i]);
        lemma_kept_entry_is_listed(items.drop_last(), query, i);
        let k = choose|k: int| 0 <= k < rest.len() && rest[k] == entry_service(items[i]);
        if entry_selected(items.last(), query) {
            assert(selected_services(items, query)[k] == rest[k]);
        }
    }
}

/// Matching ignores case on both sides: an entry with a payment option that
/// is not on a testnet is listed whenever the lowercase form of its URL, of
/// its first payment option's description or of its metadata's description
/// contains the lowercase form of the query.
pub proof fn lemma_case_insensitive_match_is_listed(
    items: Seq<DiscoveredService>,
    q: Seq<char>,
    i: int,
)
    requires
        0 <= i < items.len(),
        items[i].accepts@.len() > 0,
        !is_testnet(items[i].accepts@[0].network@),
        ({
            let item = items[i];
            ||| contains_seq(lowercase(item.resource@), lowercase(q))
            ||| (item.accepts@[0].description matches Some(d) && contains_seq(
                lowercase(d@),
                lowercase(q),
            ))
            ||| (item.metadata matches Some(m) && (m.description matches Some(d) && contains_seq(
                lowercase(d@),
                lowercase(q),
            )))
        }),
    ensures
        selected_services(items, Some(q)).contains(entry_service(items[i])),
{
    lemma_kept_entry_is_listed(items, Some(q), i);
}

} // verus!
