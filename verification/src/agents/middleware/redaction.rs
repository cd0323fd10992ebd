//! PII detection and redaction.
//!
//! Detectors scan the UTF-8 bytes of a text and report byte ranges; the
//! strategies rewrite those ranges (block, redact, mask or hash).

use vstd::prelude::*;
use vstd::string::*;
use vstd::utf8::*;

use crate::text::{
    byte_prefix, byte_suffix, to_uppercase, ascii_alnum, ascii_digit, ascii_hex, byte_slice, char_is_alphanumeric, chars_of,
    is_alphanumeric, is_digit_byte, is_hex_byte, push_char, push_string, str_eq,
    string_of_chars, uppercase_of, cut_point, decode_range, is_alnum_byte, lemma_after_ascii,
    lemma_cut_point_start, lemma_rewrite_bytes,
};

verus! {

broadcast use vstd::utf8::group_utf8_lib;

/// A match of personally identifiable information within text.
#[derive(Debug, Clone, PartialEq, Eq)]
pub struct PIIMatch {
    /// The type of PII detected (e.g., "email", "credit_card").
    pub pii_type: String,
    /// The matched value.
    pub value: String,
    /// Start byte offset in the original text.
    pub start: usize,
    /// End byte offset in the original text (exclusive).
    pub end: usize,
}

/// The ranges a detector reports, paired with the type it reports them as.
pub open spec fn matches_are(
    b: Seq<u8>,
    ms: Seq<PIIMatch>,
    spans: Seq<(int, int)>,
    ty: Seq<char>,
) -> bool {
    &&& ms.len() == spans.len()
    &&& forall|k: int|
        0 <= k < ms.len() ==> {
            &&& (#[trigger] ms[k]).start == spans[k].0
            &&& ms[k].end == spans[k].1
            &&& ms[k].pii_type@ == ty
            &&& ms[k].value@ == decode_range(b, spans[k].0, spans[k].1)
        }
}

/// Every match covers a non-empty byte range that starts and ends on a
/// character boundary of the text.
pub open spec fn matches_fit(b: Seq<u8>, ms: Seq<PIIMatch>) -> bool {
    forall|k: int|
        0 <= k < ms.len() ==> {
            &&& (#[trigger] ms[k]).start < ms[k].end
            &&& cut_point(b, ms[k].start as int)
            &&& cut_point(b, ms[k].end as int)
        }
}

// ---------------------------------------------------------------------------
// Email
// ---------------------------------------------------------------------------

/// Bytes allowed in the local part of an address.
pub open spec fn is_local_byte(c: u8) -> bool {
    is_alnum_byte(c) || c == 0x2e || c == 0x5f || c == 0x25 || c == 0x2b || c == 0x2d
}

/// Bytes allowed in the domain of an address.
pub open spec fn is_domain_byte(c: u8) -> bool {
    is_alnum_byte(c) || c == 0x2e || c == 0x2d
}

/// Start of the run of local-part bytes that ends at `i`.
pub open spec fn local_start(b: Seq<u8>, i: int) -> int
    decreases i,
{
    if 0 < i <= b.len() && is_local_byte(b[i - 1]) {
        local_start(b, i - 1)
    } else {
        i
    }
}

/// End of the run of domain bytes that starts at `j`.
pub open spec fn domain_end(b: Seq<u8>, j: int) -> int
    decreases b.len() - j,
{
    if 0 <= j < b.len() && is_domain_byte(b[j]) {
        domain_end(b, j + 1)
    } else {
        j
    }
}

/// Whether a `.` occurs in `b[from..to]`.
pub open spec fn has_dot(b: Seq<u8>, from: int, to: int) -> bool {
    exists|k: int| from <= k < to && b[k] == 0x2e
}

/// `e` moved left past trailing dots, but not below `lo`.
pub open spec fn trim_dots(b: Seq<u8>, lo: int, e: int) -> int
    decreases e,
{
    if lo < e && 0 < e <= b.len() && b[e - 1] == 0x2e {
        trim_dots(b, lo, e - 1)
    } else {
        e
    }
}

/// The address around the `@` at byte `i`, if there is one.
pub open spec fn email_span_at(b: Seq<u8>, i: int) -> Option<(int, int)> {
    if 0 <= i < b.len() && b[i] == 0x40 {
        let s = local_start(b, i);
        let e0 = domain_end(b, i + 1);
        let e = trim_dots(b, i + 1, e0);
        if s < i && e > i + 1 && has_dot(b, i + 1, e0) {
            Some((s, e))
        } else {
            None
        }
    } else {
        None
    }
}

/// Address ranges found at `@` signs from byte `i` on, in order.
pub open spec fn email_spans(b: Seq<u8>, i: int) -> Seq<(int, int)>
    decreases b.len() - i,
{
    if i < 0 || i >= b.len() {
        seq![]
    } else {
        match email_span_at(b, i) {
            Some(p) => seq![p] + email_spans(b, i + 1),
            None => email_spans(b, i + 1),
        }
    }
}

/// A byte that may appear in the local part of an address: an ASCII letter
/// or digit, or one of `. _ % + -`.
pub open spec fn local_part_char(c: u8) -> bool {
    ||| 0x30 <= c <= 0x39
    ||| 0x41 <= c <= 0x5a
    ||| 0x61 <= c <= 0x7a
    ||| c == 0x2e
    ||| c == 0x5f
    ||| c == 0x25
    ||| c == 0x2b
    ||| c == 0x2d
}

/// `sp` is an address around the `@` at byte `a` whose local part is the
/// whole run of local-part bytes before the `@`: every byte from its start to
/// the `@` may be in a local part, and the byte before its start may not;
/// every byte after the `@` may be in a domain, and the last is not a dot.
pub open spec fn address_at(b: Seq<u8>, sp: (int, int), a: int) -> bool {
    &&& 0 <= sp.0 < a < sp.1 <= b.len()
    &&& b[a] == 0x40
    &&& forall|j: int| sp.0 <= j < a ==> local_part_char(#[trigger] b[j])
    &&& sp.0 == 0 || !local_part_char(b[sp.0 - 1])
    &&& forall|j: int| a < j < sp.1 ==> domain_char(#[trigger] b[j])
    &&& b[sp.1 - 1] != 0x2e
}

/// A byte that may appear in the domain of an address: an ASCII letter or
/// digit, `.` or `-`.
pub open spec fn domain_char(c: u8) -> bool {
    ||| 0x30 <= c <= 0x39
    ||| 0x41 <= c <= 0x5a
    ||| 0x61 <= c <= 0x7a
    ||| c == 0x2e
    ||| c == 0x2d
}

/// `sp` is an address around some `@`, with the whole local part (see
/// `address_at`).
pub open spec fn address_found(b: Seq<u8>, sp: (int, int)) -> bool {
    exists|a: int| address_at(b, sp, a)
}

proof fn lemma_local_start(b: Seq<u8>, i: int)
    requires
        0 <= i <= b.len(),
    ensures
        0 <= local_start(b, i) <= i,
        forall|j: int| local_start(b, i) <= j < i ==> is_local_byte(#[trigger] b[j]),
        local_start(b, i) == 0 || !is_local_byte(b[local_start(b, i) - 1]),
    decreases i,
{
    if 0 < i && is_local_byte(b[i - 1]) {
        lemma_local_start(b, i - 1);
    }
}

proof fn lemma_domain_end_bound(b: Seq<u8>, j: int)
    requires
        0 <= j <= b.len(),
    ensures
        j <= domain_end(b, j) <= b.len(),
        forall|m: int| j <= m < domain_end(b, j) ==> is_domain_byte(#[trigger] b[m]),
    decreases b.len() - j,
{
    if j < b.len() && is_domain_byte(b[j]) {
        lemma_domain_end_bound(b, j + 1);
    }
}

proof fn lemma_trim_dots_bound(b: Seq<u8>, lo: int, e: int)
    requires
        e <= b.len(),
    ensures
        trim_dots(b, lo, e) <= e,
        lo < trim_dots(b, lo, e) && 0 < trim_dots(b, lo, e) ==> b[trim_dots(b, lo, e) - 1] != 0x2e,
    decreases e,
{
    if lo < e && 0 < e <= b.len() && b[e - 1] == 0x2e {
        lemma_trim_dots_bound(b, lo, e - 1);
    }
}

proof fn lemma_email_spans_from(b: Seq<u8>, i: int)
    requires
        0 <= i,
    ensures
        forall|k: int|
            0 <= k < email_spans(b, i).len() ==> exists|j: int|
                i <= j < b.len() && email_span_at(b, j) == Some(#[trigger] email_spans(b, i)[k]),
    decreases b.len() - i,
{
    if i < b.len() {
        lemma_email_spans_from(b, i + 1);
        let rest = email_spans(b, i + 1);
        match email_span_at(b, i) {
            Some(p) => {
                assert forall|k: int| 0 <= k < email_spans(b, i).len() implies exists|j: int|
                    i <= j < b.len() && email_span_at(b, j) == Some(#[trigger] email_spans(b, i)[k]) by {
                    if k == 0 {
                        assert(email_span_at(b, i) == Some(email_spans(b, i)[k]));
                    } else {
                        assert(email_spans(b, i)[k] == rest[k - 1]);
                    }
                }
            },
            None => {},
        }
    }
}

/// Every address found lies around an `@` and starts at the beginning of the
/// whole run of local-part bytes (`A-Z a-z 0-9 . _ % + -`) before it: no
/// part of the local part is left outside the match.
pub proof fn law_email_local_part(b: Seq<u8>)
    ensures
        forall|k: int|
            0 <= k < email_spans(b, 0).len() ==> address_found(b, #[trigger] email_spans(b, 0)[k]),
{
    lemma_email_spans_from(b, 0);
    assert forall|c: u8| is_local_byte(c) == local_part_char(c) by {}
    assert forall|c: u8| is_domain_byte(c) == domain_char(c) by {}
    assert forall|k: int| 0 <= k < email_spans(b, 0).len() implies address_found(
        b,
        #[trigger] email_spans(b, 0)[k],
    ) by {
        let j = choose|j: int| 0 <= j < b.len() && email_span_at(b, j) == Some(#[trigger] email_spans(b, 0)[k]);
        let sp = email_spans(b, 0)[k];
        lemma_local_start(b, j);
        lemma_domain_end_bound(b, j + 1);
        lemma_trim_dots_bound(b, j + 1, domain_end(b, j + 1));
        assert(sp.0 == local_start(b, j));
        assert forall|m: int| sp.0 <= m < j implies local_part_char(#[trigger] b[m]) by {
            assert(is_local_byte(b[m]));
        }
        assert forall|m: int| j < m < sp.1 implies domain_char(#[trigger] b[m]) by {
            assert(is_domain_byte(b[m]));
        }
        assert(address_at(b, sp, j));
    }
}

fn is_local(c: u8) -> (r: bool)
    ensures
        r == is_local_byte(c),
{
    ascii_alnum(c) || c == 0x2e || c == 0x5f || c == 0x25 || c == 0x2b || c == 0x2d
}

fn is_domain(c: u8) -> (r: bool)
    ensures
        r == is_domain_byte(c),
{
    ascii_alnum(c) || c == 0x2e || c == 0x2d
}

fn make_match(text: &str, ty: &str, start: usize, end: usize) -> (m: PIIMatch)
    requires
        start <= end,
        cut_point(text.spec_bytes(), start as int),
        cut_point(text.spec_bytes(), end as int),
    ensures
        m.start == start,
        m.end == end,
        m.pii_type@ == ty@,
        m.value@ == decode_range(text.spec_bytes(), start as int, end as int),
{
    PIIMatch { pii_type: ty.to_owned(), value: byte_slice(text, start, end), start, end }
}

/// Detect email addresses in text.
pub fn detect_email(text: &str) -> (matches: Vec<PIIMatch>)
    ensures
        matches_are(text.spec_bytes(), matches@, email_spans(text.spec_bytes(), 0), "email"@),
        matches_fit(text.spec_bytes(), matches@),
{
    let ghost b = text.spec_bytes();
    let bytes = text.as_bytes();
    let len = bytes.len();
    let mut matches: Vec<PIIMatch> = Vec::new();
    let ghost mut found: Seq<(int, int)> = seq![];
    let mut i: usize = 0;
    while i < len
        invariant
            b == bytes@,
            b == text.spec_bytes(),
            len == b.len(),
            valid_utf8(b),
            i <= len,
            email_spans(b, 0) == found + email_spans(b, i as int),
            matches_are(text.spec_bytes(), matches@, found, "email"@),
            matches_fit(text.spec_bytes(), matches@),
        decreases len - i,
    {
        let ghost before = found;
        if bytes[i] == 0x40 {
            let mut start = i;
            while start > 0 && is_local(bytes[start - 1])
                invariant
                    b == bytes@,
                    i < len == b.len(),
                    start <= i,
                    local_start(b, start as int) == local_start(b, i as int),
                    start < i ==> is_local_byte(b[start as int]),
                decreases start,
            {
                start = start - 1;
            }
            let mut end = i + 1;
            let mut dot = false;
            while end < len && is_domain(bytes[end])
                invariant
                    b == bytes@,
                    i < len == b.len(),
                    i + 1 <= end <= len,
                    domain_end(b, end as int) == domain_end(b, i + 1),
                    dot == has_dot(b, i + 1, end as int),
                    end > i + 1 ==> is_domain_byte(b[end - 1]),
                decreases len - end,
            {
                if bytes[end] == 0x2e {
                    dot = true;
                }
                end = end + 1;
            }
            let e0 = end;
            while end > i + 1 && bytes[end - 1] == 0x2e
                invariant
                    b == bytes@,
                    i < len == b.len(),
                    i + 1 <= end <= e0 <= len,
                    trim_dots(b, i + 1, end as int) == trim_dots(b, i + 1, e0 as int),
                    end < e0 ==> b[end as int] == 0x2e,
                decreases end,
            {
                end = end - 1;
            }
            if start < i && end > i + 1 && dot {
                proof {
                    assert(b[i as int] == 0x40);
                    if start < i {
                        assert(is_local_byte(b[start as int]));
                    }
                    assert(cut_point(b, start as int));
                    if end < len {
                        if end == e0 {
                            lemma_after_ascii(b, e0 as int);
                        }
                    }
                }
                let m = make_match(text, "email", start, end);
                matches.push(m);
                proof {
                    found = found.push((start as int, end as int));
                }
            }
            proof {
                assert(email_span_at(b, i as int) == if start < i && end > i + 1 && dot {
                    Some((start as int, end as int))
                } else {
                    None::<(int, int)>
                });
            }
        }
        proof {
            assert(email_spans(b, i as int) == match email_span_at(b, i as int) {
                Some(p) => seq![p] + email_spans(b, i + 1),
                None => email_spans(b, i + 1),
            });
            if found.len() > before.len() {
                assert(found =~= before + seq![found.last()]);
            }
        }
        i = i + 1;
    }
    matches
}


// ---------------------------------------------------------------------------
// Credit cards
// ---------------------------------------------------------------------------

/// Luhn contribution of one digit, doubled or not.
pub open spec fn luhn_digit(d: u8, double: bool) -> int {
    let n = d - 0x30;
    if double {
        if 2 * n > 9 {
            2 * n - 9
        } else {
            2 * n
        }
    } else {
        n
    }
}

/// Luhn sum of `d[0..k]`, walking from `d[k-1]` down, where `d[k-1]` is
/// doubled exactly when `double` holds and the flag alternates.
pub open spec fn luhn_sum(d: Seq<u8>, k: int, double: bool) -> int
    decreases k,
{
    if k <= 0 {
        0
    } else {
        luhn_digit(d[k - 1], double) + luhn_sum(d, k - 1, !double)
    }
}

/// The Luhn check: at least two digits and a sum divisible by ten.
pub open spec fn luhn_valid(d: Seq<u8>) -> bool {
    d.len() >= 2 && luhn_sum(d, d.len() as int, false) % 10 == 0
}

/// The standard Luhn term of digit `i` of `d`: positions are counted from
/// the right starting at 0; a digit at an odd position is doubled and
/// contributes the sum of the decimal digits of its double, any other digit
/// contributes its value.
pub open spec fn luhn_term(d: Seq<u8>, i: int) -> int {
    let v = d[i] - 0x30;
    if (d.len() - 1 - i) % 2 == 1 {
        (2 * v) / 10 + (2 * v) % 10
    } else {
        v
    }
}

/// The sum of the standard Luhn terms of `d[0..k)`.
pub open spec fn luhn_total(d: Seq<u8>, k: int) -> int
    decreases k,
{
    if k <= 0 {
        0
    } else {
        luhn_total(d, k - 1) + luhn_term(d, k - 1)
    }
}

proof fn lemma_luhn_sum_total(d: Seq<u8>, k: int, double: bool)
    requires
        0 <= k <= d.len(),
        forall|j: int| 0 <= j < d.len() ==> is_digit_byte(#[trigger] d[j]),
        double == ((d.len() - k) % 2 == 1),
    ensures
        luhn_sum(d, k, double) == luhn_total(d, k),
    decreases k,
{
    if k > 0 {
        lemma_luhn_sum_total(d, k - 1, !double);
        let v = d[k - 1] - 0x30;
        assert(is_digit_byte(d[k - 1]));
        assert(0 <= v <= 9);
        assert((d.len() - 1 - (k - 1)) % 2 == 1 <==> double);
        if double {
            assert((2 * v) / 10 + (2 * v) % 10 == if 2 * v > 9 {
                2 * v - 9
            } else {
                2 * v
            }) by (nonlinear_arith)
                requires
                    0 <= v <= 9,
            ;
        }
    }
}

/// The Luhn check accepts exactly the digit strings of at least two digits
/// whose standard Luhn sum (every second digit from the right doubled and
/// replaced by the sum of its decimal digits) is a multiple of ten.
pub proof fn law_luhn_standard(d: Seq<u8>)
    requires
        forall|j: int| 0 <= j < d.len() ==> is_digit_byte(#[trigger] d[j]),
    ensures
        luhn_valid(d) <==> (d.len() >= 2 && luhn_total(d, d.len() as int) % 10 == 0),
{
    lemma_luhn_sum_total(d, d.len() as int, false);
}

/// Perform Luhn check on a sequence of digits.
pub fn luhn_check(digits: &[u8]) -> (r: bool)
    requires
        forall|k: int| 0 <= k < digits@.len() ==> is_digit_byte(#[trigger] digits@[k]),
    ensures
        r == luhn_valid(digits@),
{
    if digits.len() < 2 {
        return false;
    }
    let ghost d = digits@;
    let mut acc: u32 = 0;
    let mut double = false;
    let mut k: usize = digits.len();
    while k > 0
        invariant
            d == digits@,
            forall|j: int| 0 <= j < d.len() ==> is_digit_byte(#[trigger] d[j]),
            k <= d.len(),
            acc < 10,
            (acc + luhn_sum(d, k as int, double)) % 10 == luhn_sum(d, d.len() as int, false) % 10,
        decreases k,
    {
        let dgt = digits[k - 1];
        assert(is_digit_byte(d[k - 1]));
        let mut n: u32 = (dgt - 0x30) as u32;
        if double {
            n = n * 2;
            if n > 9 {
                n = n - 9;
            }
        }
        proof {
            assert(n == luhn_digit(d[k - 1], double));
            vstd::arithmetic::div_mod::lemma_add_mod_noop(
                acc + n,
                luhn_sum(d, k - 1, !double),
                10,
            );
            vstd::arithmetic::div_mod::lemma_mod_twice(acc + n, 10);
            vstd::arithmetic::div_mod::lemma_add_mod_noop(
                (acc + n) % 10,
                luhn_sum(d, k - 1, !double),
                10,
            );
        }
        acc = (acc + n) % 10;
        double = !double;
        k = k - 1;
    }
    acc == 0
}

/// End of a run of digits that may be split by single spaces or dashes,
/// each of which must be followed by a digit.
pub open spec fn card_end(b: Seq<u8>, e: int) -> int
    decreases b.len() - e,
{
    if 0 <= e < b.len() {
        if is_digit_byte(b[e]) {
            card_end(b, e + 1)
        } else if (b[e] == 0x20 || b[e] == 0x2d) && e + 1 < b.len() && is_digit_byte(b[e + 1]) {
            card_end(b, e + 1)
        } else {
            e
        }
    } else {
        e
    }
}

/// The digits among `b[s..e]`, in order.
pub open spec fn digits_in(b: Seq<u8>, s: int, e: int) -> Seq<u8>
    decreases e - s,
{
    if e <= s {
        seq![]
    } else if is_digit_byte(b[e - 1]) {
        digits_in(b, s, e - 1).push(b[e - 1])
    } else {
        digits_in(b, s, e - 1)
    }
}

pub proof fn lemma_card_end_grows(b: Seq<u8>, e: int)
    requires
        0 <= e,
    ensures
        card_end(b, e) >= e,
        e < b.len() && is_digit_byte(b[e]) ==> card_end(b, e) > e,
        card_end(b, e) <= b.len() || card_end(b, e) == e,
    decreases b.len() - e,
{
    if 0 <= e < b.len() {
        lemma_card_end_grows(b, e + 1);
    }
}

/// Card-number ranges found by scanning from byte `i`: each digit run is
/// consumed whole, and kept when it holds 13 to 19 digits that pass Luhn.
pub open spec fn card_spans(b: Seq<u8>, i: int) -> Seq<(int, int)>
    decreases b.len() - i,
{
    if i < 0 || i >= b.len() {
        seq![]
    } else if is_digit_byte(b[i]) {
        let e = card_end(b, i);
        proof {
            lemma_card_end_grows(b, i);
        }
        let d = digits_in(b, i, e);
        if 13 <= d.len() <= 19 && luhn_valid(d) {
            seq![(i, e)] + card_spans(b, e)
        } else {
            card_spans(b, e)
        }
    } else {
        card_spans(b, i + 1)
    }
}

pub proof fn lemma_digits_in_are_digits(b: Seq<u8>, s: int, e: int)
    ensures
        forall|k: int|
            0 <= k < digits_in(b, s, e).len() ==> is_digit_byte(#[trigger] digits_in(b, s, e)[k]),
    decreases e - s,
{
    if e > s {
        lemma_digits_in_are_digits(b, s, e - 1);
        let prev = digits_in(b, s, e - 1);
        let cur = digits_in(b, s, e);
        assert forall|k: int| 0 <= k < cur.len() implies is_digit_byte(#[trigger] cur[k]) by {
            if k < prev.len() {
                assert(cur[k] == prev[k]);
            }
        }
    }
}

/// Detect credit card numbers in text (13-19 digits, optionally separated by
/// spaces/dashes, validated with Luhn).
pub fn detect_credit_card(text: &str) -> (matches: Vec<PIIMatch>)
    ensures
        matches_are(text.spec_bytes(), matches@, card_spans(text.spec_bytes(), 0), "credit_card"@),
        matches_fit(text.spec_bytes(), matches@),
{
    let ghost b = text.spec_bytes();
    let bytes = text.as_bytes();
    let len = bytes.len();
    let mut matches: Vec<PIIMatch> = Vec::new();
    let ghost mut found: Seq<(int, int)> = seq![];
    let mut i: usize = 0;
    while i < len
        invariant
            b == bytes@,
            b == text.spec_bytes(),
            len == b.len(),
            valid_utf8(b),
            i <= len,
            card_spans(b, 0) == found + card_spans(b, i as int),
            matches_are(text.spec_bytes(), matches@, found, "credit_card"@),
            matches_fit(text.spec_bytes(), matches@),
        decreases len - i,
    {
        if ascii_digit(bytes[i]) {
            let start = i;
            let mut digits: Vec<u8> = Vec::new();
            let mut end = i;
            loop
                invariant
                    b == bytes@,
                    start < len == b.len(),
                    is_digit_byte(b[start as int]),
                    start <= end <= len,
                    card_end(b, end as int) == card_end(b, start as int),
                    digits@ == digits_in(b, start as int, end as int),
                    end > start ==> b[end - 1] <= 0x7f,
                ensures
                    start <= end <= len,
                    card_end(b, end as int) == end,
                    digits@ == digits_in(b, start as int, end as int),
                    end > start ==> b[end - 1] <= 0x7f,
                decreases len - end,
            {
                if end >= len {
                    break;
                }
                let c = bytes[end];
                if ascii_digit(c) {
                    digits.push(c);
                    end = end + 1;
                } else if (c == 0x20 || c == 0x2d) && end + 1 < len && ascii_digit(bytes[end + 1]) {
                    end = end + 1;
                } else {
                    break;
                }
            }
            proof {
                lemma_digits_in_are_digits(b, start as int, end as int);
                lemma_card_end_grows(b, start as int);
                assert(card_end(b, end as int) == end);
                assert(card_spans(b, i as int) == if 13 <= digits@.len() <= 19 && luhn_valid(
                    digits@,
                ) {
                    seq![(i as int, end as int)] + card_spans(b, end as int)
                } else {
                    card_spans(b, end as int)
                });
            }
            let ok = digits.len() >= 13 && digits.len() <= 19 && luhn_check(digits.as_slice());
            if ok {
                proof {
                    if end < len {
                        lemma_after_ascii(b, end as int);
                    }
                }
                let m = make_match(text, "credit_card", start, end);
                matches.push(m);
                proof {
                    let old_found = found;
                    found = found.push((start as int, end as int));
                    assert(found =~= old_found + seq![(start as int, end as int)]);
                }
            }
            i = end;
        } else {
            i = i + 1;
        }
    }
    matches
}

// ---------------------------------------------------------------------------
// IPv4 addresses
// ---------------------------------------------------------------------------

/// End of the run of ASCII digits that starts at `j`.
pub open spec fn digit_run_end(b: Seq<u8>, j: int) -> int
    decreases b.len() - j,
{
    if 0 <= j < b.len() && is_digit_byte(b[j]) {
        digit_run_end(b, j + 1)
    } else {
        j
    }
}

/// The number written by the digits `b[s..e]`.
pub open spec fn digits_value(b: Seq<u8>, s: int, e: int) -> int
    decreases e - s,
{
    if e <= s {
        0
    } else {
        digits_value(b, s, e - 1) * 10 + (b[e - 1] - 0x30)
    }
}

/// An octet: a number of at most 255 without a leading zero (a lone `0` is fine).
pub open spec fn octet_ok(b: Seq<u8>, s: int, e: int) -> bool {
    s < e && digits_value(b, s, e) <= 255 && (e - s == 1 || b[s] != 0x30)
}

/// Whether a digit run ends at `e` with a dot right after it.
pub open spec fn dot_after(b: Seq<u8>, run_start: int, e: int) -> bool {
    e > run_start && e < b.len() && b[e] == 0x2e
}

/// End of the dotted quad that starts at `i` (meaningful when [`ip_ok`] holds).
pub open spec fn ip_end(b: Seq<u8>, i: int) -> int {
    let e1 = digit_run_end(b, i);
    let e2 = digit_run_end(b, e1 + 1);
    let e3 = digit_run_end(b, e2 + 1);
    digit_run_end(b, e3 + 1)
}

/// Four dot-separated digit runs start at `i`, each a valid octet, and the
/// whole is not glued to letters or digits on either side.
pub open spec fn ip_ok(b: Seq<u8>, i: int) -> bool {
    let e1 = digit_run_end(b, i);
    let e2 = digit_run_end(b, e1 + 1);
    let e3 = digit_run_end(b, e2 + 1);
    let e4 = digit_run_end(b, e3 + 1);
    &&& 0 <= i
    &&& dot_after(b, i, e1)
    &&& dot_after(b, e1 + 1, e2)
    &&& dot_after(b, e2 + 1, e3)
    &&& e4 > e3 + 1
    &&& octet_ok(b, i, e1)
    &&& octet_ok(b, e1 + 1, e2)
    &&& octet_ok(b, e2 + 1, e3)
    &&& octet_ok(b, e3 + 1, e4)
    &&& (i == 0 || !is_alnum_byte(b[i - 1]))
    &&& (e4 >= b.len() || !is_alnum_byte(b[e4]))
}

pub proof fn lemma_digit_run_end(b: Seq<u8>, j: int)
    requires
        0 <= j <= b.len(),
    ensures
        j <= digit_run_end(b, j) <= b.len(),
        forall|k: int| j <= k < digit_run_end(b, j) ==> is_digit_byte(#[trigger] b[k]),
    decreases b.len() - j,
{
    if j < b.len() && is_digit_byte(b[j]) {
        lemma_digit_run_end(b, j + 1);
    }
}

pub proof fn lemma_ip_end(b: Seq<u8>, i: int)
    requires
        0 <= i < b.len(),
        ip_ok(b, i),
    ensures
        i < ip_end(b, i) <= b.len(),
        is_digit_byte(b[ip_end(b, i) - 1]),
{
    let e1 = digit_run_end(b, i);
    lemma_digit_run_end(b, i);
    let e2 = digit_run_end(b, e1 + 1);
    lemma_digit_run_end(b, e1 + 1);
    let e3 = digit_run_end(b, e2 + 1);
    lemma_digit_run_end(b, e2 + 1);
    let e4 = digit_run_end(b, e3 + 1);
    lemma_digit_run_end(b, e3 + 1);
    assert(is_digit_byte(b[e4 - 1]));
}

/// IPv4 ranges found by scanning from byte `i`; after a failed candidate the
/// scan resumes one byte later.
pub open spec fn ip_spans(b: Seq<u8>, i: int) -> Seq<(int, int)>
    decreases b.len() - i,
{
    if i < 0 || i >= b.len() {
        seq![]
    } else if is_digit_byte(b[i]) && ip_ok(b, i) {
        let j = ip_end(b, i);
        proof {
            lemma_ip_end(b, i);
        }
        seq![(i, j)] + ip_spans(b, j)
    } else {
        ip_spans(b, i + 1)
    }
}

fn run_end(bytes: &[u8], j: usize) -> (r: usize)
    requires
        j <= bytes@.len(),
    ensures
        r == digit_run_end(bytes@, j as int),
        j <= r <= bytes@.len(),
{
    let mut k = j;
    while k < bytes.len() && ascii_digit(bytes[k])
        invariant
            j <= k <= bytes@.len(),
            digit_run_end(bytes@, k as int) == digit_run_end(bytes@, j as int),
        decreases bytes@.len() - k,
    {
        k = k + 1;
    }
    k
}

fn octet_valid(bytes: &[u8], s: usize, e: usize) -> (r: bool)
    requires
        s < e <= bytes@.len(),
        forall|k: int| s <= k < e ==> is_digit_byte(#[trigger] bytes@[k]),
    ensures
        r == octet_ok(bytes@, s as int, e as int),
{
    let ghost b = bytes@;
    let mut v: u32 = 0;
    let mut k = s;
    while k < e
        invariant
            b == bytes@,
            s <= k <= e <= b.len(),
            forall|j: int| s <= j < e ==> is_digit_byte(#[trigger] b[j]),
            digits_value(b, s as int, k as int) >= 0,
            v == if digits_value(b, s as int, k as int) >= 1000 {
                1000
            } else {
                digits_value(b, s as int, k as int)
            },
        decreases e - k,
    {
        assert(is_digit_byte(b[k as int]));
        let d = (bytes[k] - 0x30) as u32;
        let w = v * 10 + d;
        v = if w >= 1000 { 1000 } else { w };
        k = k + 1;
    }
    v <= 255 && (e - s == 1 || bytes[s] != 0x30)
}

fn ip_at(bytes: &[u8], i: usize) -> (r: Option<usize>)
    requires
        i < bytes@.len(),
    ensures
        r == if ip_ok(bytes@, i as int) {
            Some(ip_end(bytes@, i as int) as usize)
        } else {
            None::<usize>
        },
        r matches Some(j) ==> i < j <= bytes@.len(),
{
    let ghost b = bytes@;
    let len = bytes.len();
    let e1 = run_end(bytes, i);
    if !(e1 > i && e1 < len && bytes[e1] == 0x2e) {
        return None;
    }
    let e2 = run_end(bytes, e1 + 1);
    if !(e2 > e1 + 1 && e2 < len && bytes[e2] == 0x2e) {
        return None;
    }
    let e3 = run_end(bytes, e2 + 1);
    if !(e3 > e2 + 1 && e3 < len && bytes[e3] == 0x2e) {
        return None;
    }
    let e4 = run_end(bytes, e3 + 1);
    if !(e4 > e3 + 1) {
        return None;
    }
    proof {
        lemma_digit_run_end(b, i as int);
        lemma_digit_run_end(b, e1 + 1);
        lemma_digit_run_end(b, e2 + 1);
        lemma_digit_run_end(b, e3 + 1);
    }
    if !(octet_valid(bytes, i, e1) && octet_valid(bytes, e1 + 1, e2) && octet_valid(bytes, e2 + 1, e3)
        && octet_valid(bytes, e3 + 1, e4)) {
        return None;
    }
    let preceded_ok = i == 0 || !ascii_alnum(bytes[i - 1]);
    let followed_ok = e4 >= len || !ascii_alnum(bytes[e4]);
    if preceded_ok && followed_ok {
        Some(e4)
    } else {
        None
    }
}

/// Detect IPv4 addresses in text.
pub fn detect_ip(text: &str) -> (matches: Vec<PIIMatch>)
    ensures
        matches_are(text.spec_bytes(), matches@, ip_spans(text.spec_bytes(), 0), "ip"@),
        matches_fit(text.spec_bytes(), matches@),
{
    let ghost b = text.spec_bytes();
    let bytes = text.as_bytes();
    let len = bytes.len();
    let mut matches: Vec<PIIMatch> = Vec::new();
    let ghost mut found: Seq<(int, int)> = seq![];
    let mut i: usize = 0;
    while i < len
        invariant
            b == bytes@,
            b == text.spec_bytes(),
            len == b.len(),
            valid_utf8(b),
            i <= len,
            ip_spans(b, 0) == found + ip_spans(b, i as int),
            matches_are(text.spec_bytes(), matches@, found, "ip"@),
            matches_fit(text.spec_bytes(), matches@),
        decreases len - i,
    {
        if ascii_digit(bytes[i]) {
            match ip_at(bytes, i) {
                Some(j) => {
                    proof {
                        lemma_ip_end(b, i as int);
                        if j < len {
                            lemma_after_ascii(b, j as int);
                        }
                        assert(ip_spans(b, i as int) == seq![(i as int, j as int)] + ip_spans(
                            b,
                            j as int,
                        ));
                    }
                    let m = make_match(text, "ip", i, j);
                    matches.push(m);
                    proof {
                        let old_found = found;
                        found = found.push((i as int, j as int));
                        assert(found =~= old_found + seq![(i as int, j as int)]);
                    }
                    i = j;
                },
                None => {
                    assert(ip_spans(b, i as int) == ip_spans(b, i + 1));
                    i = i + 1;
                },
            }
        } else {
            i = i + 1;
        }
    }
    matches
}

// ---------------------------------------------------------------------------
// MAC addresses
// ---------------------------------------------------------------------------

/// Whether `b[k]` and `b[k+1]` are both hexadecimal digits.
pub open spec fn hex_pair_at(b: Seq<u8>, k: int) -> bool {
    is_hex_byte(b[k]) && is_hex_byte(b[k + 1])
}

/// A MAC address (six hex pairs joined by one repeated `:` or `-`) occupies
/// `b[i..i+17]`, not glued to letters or digits on either side.
pub open spec fn mac_at(b: Seq<u8>, i: int) -> bool {
    let sep = b[i + 2];
    &&& 0 <= i && i + 17 <= b.len()
    &&& (sep == 0x3a || sep == 0x2d)
    &&& hex_pair_at(b, i)
    &&& b[i + 5] == sep && hex_pair_at(b, i + 3)
    &&& b[i + 8] == sep && hex_pair_at(b, i + 6)
    &&& b[i + 11] == sep && hex_pair_at(b, i + 9)
    &&& b[i + 14] == sep && hex_pair_at(b, i + 12)
    &&& hex_pair_at(b, i + 15)
    &&& (i == 0 || !is_alnum_byte(b[i - 1]))
    &&& (i + 17 >= b.len() || !is_alnum_byte(b[i + 17]))
}

/// MAC ranges found by scanning from byte `i`.
pub open spec fn mac_spans(b: Seq<u8>, i: int) -> Seq<(int, int)>
    decreases b.len() - i,
{
    if i < 0 || i + 17 > b.len() {
        seq![]
    } else if mac_at(b, i) {
        seq![(i, i + 17)] + mac_spans(b, i + 17)
    } else {
        mac_spans(b, i + 1)
    }
}

fn is_hex_pair(bytes: &[u8], k: usize) -> (r: bool)
    requires
        k + 2 <= bytes@.len(),
    ensures
        r == hex_pair_at(bytes@, k as int),
{
    ascii_hex(bytes[k]) && ascii_hex(bytes[k + 1])
}

fn mac_check(bytes: &[u8], i: usize) -> (r: bool)
    requires
        i + 17 <= bytes@.len(),
    ensures
        r == mac_at(bytes@, i as int),
{
    let len = bytes.len();
    let sep = bytes[i + 2];
    (sep == 0x3a || sep == 0x2d) && is_hex_pair(bytes, i) && bytes[i + 5] == sep && is_hex_pair(
        bytes,
        i + 3,
    ) && bytes[i + 8] == sep && is_hex_pair(bytes, i + 6) && bytes[i + 11] == sep && is_hex_pair(
        bytes,
        i + 9,
    ) && bytes[i + 14] == sep && is_hex_pair(bytes, i + 12) && is_hex_pair(bytes, i + 15) && (i
        == 0 || !ascii_alnum(bytes[i - 1])) && (i + 17 >= len || !ascii_alnum(bytes[i + 17]))
}

/// Detect MAC addresses in text (formats: XX:XX:XX:XX:XX:XX or XX-XX-XX-XX-XX-XX).
pub fn detect_mac_address(text: &str) -> (matches: Vec<PIIMatch>)
    ensures
        matches_are(text.spec_bytes(), matches@, mac_spans(text.spec_bytes(), 0), "mac_address"@),
        matches_fit(text.spec_bytes(), matches@),
{
    let ghost b = text.spec_bytes();
    let bytes = text.as_bytes();
    let len = bytes.len();
    let mut matches: Vec<PIIMatch> = Vec::new();
    if len < 17 {
        return matches;
    }
    let ghost mut found: Seq<(int, int)> = seq![];
    let mut i: usize = 0;
    while i <= len - 17
        invariant
            b == bytes@,
            b == text.spec_bytes(),
            len == b.len(),
            len >= 17,
            valid_utf8(b),
            i <= len,
            mac_spans(b, 0) == found + mac_spans(b, i as int),
            matches_are(text.spec_bytes(), matches@, found, "mac_address"@),
            matches_fit(text.spec_bytes(), matches@),
        decreases len - i,
    {
        if mac_check(bytes, i) {
            proof {
                if i + 17 < len {
                    lemma_after_ascii(b, i + 17);
                }
            }
            let m = make_match(text, "mac_address", i, i + 17);
            matches.push(m);
            proof {
                let old_found = found;
                found = found.push((i as int, i + 17));
                assert(found =~= old_found + seq![(i as int, i + 17)]);
            }
            i = i + 17;
        } else {
            i = i + 1;
        }
    }
    matches
}

// ---------------------------------------------------------------------------
// URLs
// ---------------------------------------------------------------------------

/// Bytes that end a URL.
pub open spec fn is_url_stop(c: u8) -> bool {
    c == 0x20 || c == 0x0a || c == 0x0d || c == 0x09 || c == 0x22 || c == 0x27 || c == 0x3e
        || c == 0x3c
}

/// Trailing punctuation that is not taken as part of a URL.
pub open spec fn is_url_trail(c: u8) -> bool {
    c == 0x2e || c == 0x2c || c == 0x3b || c == 0x29
}

/// End of the URL body that starts at `e`.
pub open spec fn url_end(b: Seq<u8>, e: int) -> int
    decreases b.len() - e,
{
    if 0 <= e < b.len() && !is_url_stop(b[e]) {
        url_end(b, e + 1)
    } else {
        e
    }
}

/// `e` moved left past trailing punctuation, but not below `lo`.
pub open spec fn trim_trail(b: Seq<u8>, lo: int, e: int) -> int
    decreases e,
{
    if lo < e && 0 < e <= b.len() && is_url_trail(b[e - 1]) {
        trim_trail(b, lo, e - 1)
    } else {
        e
    }
}

/// Whether `p` occurs in `b` at byte `k`.
pub open spec fn occurs_at(b: Seq<u8>, p: Seq<u8>, k: int) -> bool {
    0 <= k && k + p.len() <= b.len() && b.subrange(k, k + p.len()) == p
}

/// First byte offset at or after `from` where `p` occurs, or -1.
pub open spec fn find_from(b: Seq<u8>, p: Seq<u8>, from: int) -> int
    decreases b.len() + 1 - from,
{
    if from < 0 || from + p.len() > b.len() {
        -1
    } else if occurs_at(b, p, from) {
        from
    } else {
        find_from(b, p, from + 1)
    }
}

pub proof fn lemma_find_from(b: Seq<u8>, p: Seq<u8>, from: int)
    ensures
        find_from(b, p, from) == -1 || (from <= find_from(b, p, from) && occurs_at(
            b,
            p,
            find_from(b, p, from),
        )),
    decreases b.len() + 1 - from,
{
    if !(from < 0 || from + p.len() > b.len()) && !occurs_at(b, p, from) {
        lemma_find_from(b, p, from + 1);
    }
}

pub proof fn lemma_url_end(b: Seq<u8>, e: int)
    requires
        0 <= e <= b.len(),
    ensures
        e <= url_end(b, e) <= b.len(),
        url_end(b, e) < b.len() ==> is_url_stop(b[url_end(b, e)]),
    decreases b.len() - e,
{
    if e < b.len() && !is_url_stop(b[e]) {
        lemma_url_end(b, e + 1);
    }
}

pub proof fn lemma_trim_trail(b: Seq<u8>, lo: int, e: int)
    requires
        0 <= lo <= e <= b.len(),
    ensures
        lo <= trim_trail(b, lo, e) <= e,
        trim_trail(b, lo, e) < e ==> is_url_trail(b[trim_trail(b, lo, e)]),
    decreases e,
{
    if lo < e && 0 < e && is_url_trail(b[e - 1]) {
        lemma_trim_trail(b, lo, e - 1);
    }
}

/// URL ranges that begin with the prefix `p`, searching from byte `from`;
/// each search resumes where the previous URL ended.
pub open spec fn url_spans(b: Seq<u8>, p: Seq<u8>, from: int) -> Seq<(int, int)>
    decreases b.len() + 1 - from,
{
    let k = find_from(b, p, from);
    if p.len() == 0 || from < 0 || from > b.len() || k < 0 {
        seq![]
    } else {
        let s0 = k + p.len();
        proof {
            lemma_find_from(b, p, from);
            lemma_url_end(b, s0);
            lemma_trim_trail(b, s0, url_end(b, s0));
        }
        let e = trim_trail(b, s0, url_end(b, s0));
        if e > s0 {
            seq![(k, e)] + url_spans(b, p, e)
        } else {
            url_spans(b, p, e)
        }
    }
}

/// The bytes of `https://`.
pub open spec fn https_prefix() -> Seq<u8> {
    seq![0x68, 0x74, 0x74, 0x70, 0x73, 0x3a, 0x2f, 0x2f]
}

/// The bytes of `http://`.
pub open spec fn http_prefix() -> Seq<u8> {
    seq![0x68, 0x74, 0x74, 0x70, 0x3a, 0x2f, 0x2f]
}

/// The bytes of `ftp://`.
pub open spec fn ftp_prefix() -> Seq<u8> {
    seq![0x66, 0x74, 0x70, 0x3a, 0x2f, 0x2f]
}

/// All URL ranges: those starting with `https://`, then `http://`, then `ftp://`.
pub open spec fn all_url_spans(b: Seq<u8>) -> Seq<(int, int)> {
    url_spans(b, https_prefix(), 0) + url_spans(b, http_prefix(), 0) + url_spans(b, ftp_prefix(), 0)
}

fn occurs(bytes: &[u8], p: &Vec<u8>, k: usize) -> (r: bool)
    requires
        k + p@.len() <= bytes@.len(),
    ensures
        r == occurs_at(bytes@, p@, k as int),
{
    let mut j: usize = 0;
    while j < p.len()
        invariant
            k + p@.len() <= bytes@.len(),
            j <= p@.len(),
            forall|t: int| 0 <= t < j ==> bytes@[k + t] == p@[t],
        decreases p@.len() - j,
    {
        assert(k + j < bytes.len());
        if bytes[k + j] != p[j] {
            assert(bytes@.subrange(k as int, k + p@.len())[j as int] != p@[j as int]);
            return false;
        }
        j = j + 1;
    }
    assert(bytes@.subrange(k as int, k + p@.len()) =~= p@);
    true
}

fn find_bytes(bytes: &[u8], p: &Vec<u8>, from: usize) -> (r: Option<usize>)
    requires
        from <= bytes@.len(),
        p@.len() > 0,
    ensures
        r == if find_from(bytes@, p@, from as int) < 0 {
            None::<usize>
        } else {
            Some(find_from(bytes@, p@, from as int) as usize)
        },
{
    let len = bytes.len();
    if p.len() > len {
        return None;
    }
    let mut k = from;
    while k <= len - p.len()
        invariant
            0 < p@.len() <= len == bytes@.len(),
            from <= k <= len,
            find_from(bytes@, p@, from as int) == find_from(bytes@, p@, k as int),
        decreases len - k,
    {
        if occurs(bytes, p, k) {
            return Some(k);
        }
        k = k + 1;
    }
    None
}

fn url_matches_with(text: &str, bytes: &[u8], p: &Vec<u8>, matches: &mut Vec<PIIMatch>)
    requires
        bytes@ == text.spec_bytes(),
        p@.len() > 0,
        forall|t: int| 0 <= t < p@.len() ==> #[trigger] p@[t] <= 0x7f,
        matches_fit(text.spec_bytes(), old(matches)@),
    ensures
        matches_fit(text.spec_bytes(), final(matches)@),
        final(matches)@.len() == old(matches)@.len() + url_spans(bytes@, p@, 0).len(),
        forall|k: int|
            0 <= k < old(matches)@.len() ==> #[trigger] final(matches)@[k] == old(matches)@[k],
        matches_are(
            text.spec_bytes(),
            final(matches)@.subrange(old(matches)@.len() as int, final(matches)@.len() as int),
            url_spans(bytes@, p@, 0),
            "url"@,
        ),
{
    let ghost b = bytes@;
    let ghost m0 = matches@;
    let ghost mut found: Seq<(int, int)> = seq![];
    let len = bytes.len();
    let mut search_from: usize = 0;
    loop
        invariant
            b == bytes@,
            b == text.spec_bytes(),
            len == b.len(),
            valid_utf8(b),
            p@.len() > 0,
            forall|t: int| 0 <= t < p@.len() ==> #[trigger] p@[t] <= 0x7f,
            search_from <= len,
            url_spans(b, p@, 0) == found + url_spans(b, p@, search_from as int),
            matches@.len() == m0.len() + found.len(),
            forall|k: int| 0 <= k < m0.len() ==> #[trigger] matches@[k] == m0[k],
            matches_are(text.spec_bytes(), matches@.subrange(m0.len() as int, matches@.len() as int), found, "url"@),
            matches_fit(text.spec_bytes(), matches@),
        ensures
            url_spans(b, p@, 0) == found,
            matches@.len() == m0.len() + found.len(),
            forall|k: int| 0 <= k < m0.len() ==> #[trigger] matches@[k] == m0[k],
            matches_are(text.spec_bytes(), matches@.subrange(m0.len() as int, matches@.len() as int), found, "url"@),
            matches_fit(text.spec_bytes(), matches@),
        decreases len + 1 - search_from,
    {
        let found_at = find_bytes(bytes, p, search_from);
        let start = match found_at {
            None => {
                assert(url_spans(b, p@, search_from as int) =~= seq![]);
                assert(found + seq![] =~= found);
                break;
            },
            Some(k) => k,
        };
        proof {
            lemma_find_from(b, p@, search_from as int);
        }
        let mut end = start + p.len();
        let s0 = end;
        while end < len && !(bytes[end] == 0x20 || bytes[end] == 0x0a || bytes[end] == 0x0d
            || bytes[end] == 0x09 || bytes[end] == 0x22 || bytes[end] == 0x27 || bytes[end] == 0x3e
            || bytes[end] == 0x3c)
            invariant
                b == bytes@,
                len == b.len(),
                s0 <= end <= len,
                url_end(b, end as int) == url_end(b, s0 as int),
            decreases len - end,
        {
            end = end + 1;
        }
        let e0 = end;
        proof {
            lemma_url_end(b, s0 as int);
        }
        while end > s0 && (bytes[end - 1] == 0x2e || bytes[end - 1] == 0x2c || bytes[end - 1]
            == 0x3b || bytes[end - 1] == 0x29)
            invariant
                b == bytes@,
                len == b.len(),
                s0 <= end <= e0 <= len,
                trim_trail(b, s0 as int, end as int) == trim_trail(b, s0 as int, e0 as int),
                end < e0 ==> is_url_trail(b[end as int]),
            decreases end,
        {
            end = end - 1;
        }
        proof {
            assert(b[start as int] == b.subrange(start as int, start + p@.len())[0]);
            assert(cut_point(b, start as int));
            if end < len {
                assert(!is_continuation_byte(b[end as int]));
            }
            assert(url_spans(b, p@, search_from as int) == if end > s0 {
                seq![(start as int, end as int)] + url_spans(b, p@, end as int)
            } else {
                url_spans(b, p@, end as int)
            });
        }
        if end > s0 {
            let m = make_match(text, "url", start, end);
            let ghost old_sub = matches@.subrange(m0.len() as int, matches@.len() as int);
            matches.push(m);
            proof {
                let old_found = found;
                found = found.push((start as int, end as int));
                assert(found =~= old_found + seq![(start as int, end as int)]);
                assert(matches@.subrange(m0.len() as int, matches@.len() as int) =~= old_sub.push(m));
            }
        }
        search_from = end;
    }
    assert(url_spans(b, p@, 0) == found);
}

/// Detect URLs in text.
pub fn detect_url(text: &str) -> (matches: Vec<PIIMatch>)
    ensures
        matches_are(text.spec_bytes(), matches@, all_url_spans(text.spec_bytes()), "url"@),
        matches_fit(text.spec_bytes(), matches@),
{
    let bytes = text.as_bytes();
    let mut matches: Vec<PIIMatch> = Vec::new();
    let prefixes: Vec<Vec<u8>> = vec![
        vec![0x68, 0x74, 0x74, 0x70, 0x73, 0x3a, 0x2f, 0x2f],
        vec![0x68, 0x74, 0x74, 0x70, 0x3a, 0x2f, 0x2f],
        vec![0x66, 0x74, 0x70, 0x3a, 0x2f, 0x2f],
    ];
    assert(prefixes@[0]@ == https_prefix());
    assert(prefixes@[1]@ == http_prefix());
    assert(prefixes@[2]@ == ftp_prefix());
    let ghost m_a = matches@;
    url_matches_with(text, bytes, &prefixes[0], &mut matches);
    let ghost m_b = matches@;
    url_matches_with(text, bytes, &prefixes[1], &mut matches);
    let ghost m_c = matches@;
    url_matches_with(text, bytes, &prefixes[2], &mut matches);
    proof {
        let b = text.spec_bytes();
        let s1 = url_spans(b, https_prefix(), 0);
        let s2 = url_spans(b, http_prefix(), 0);
        let s3 = url_spans(b, ftp_prefix(), 0);
        let all = matches@;
        assert(m_b =~= m_b.subrange(0, m_b.len() as int));
        assert forall|k: int| 0 <= k < all.len() implies {
            &&& (#[trigger] all[k]).start == all_url_spans(b)[k].0
            &&& all[k].end == all_url_spans(b)[k].1
            &&& all[k].pii_type@ == "url"@
            &&& all[k].value@ == decode_range(b, all_url_spans(b)[k].0, all_url_spans(b)[k].1)
        } by {
            if k < s1.len() {
                assert(all[k] == m_b[k]);
                assert(m_b[k] == m_b.subrange(0, m_b.len() as int)[k]);
            } else if k < s1.len() + s2.len() {
                assert(all[k] == m_c[k]);
                assert(m_c[k] == m_c.subrange(m_b.len() as int, m_c.len() as int)[k - s1.len()]);
            } else {
                assert(all[k] == all.subrange(m_c.len() as int, all.len() as int)[k - s1.len()
                    - s2.len()]);
            }
        }
    }
    matches
}

// ---------------------------------------------------------------------------
// Built-in detector registry
// ---------------------------------------------------------------------------

/// Something that finds PII matches in a text.
pub trait PIIDetector {
    /// Whether `ms` are the matches this detector finds in text bytes `b`.
    /// A detector that states nothing about its matches keeps this default,
    /// which admits any list.
    open spec fn found(&self, b: Seq<u8>, ms: Seq<PIIMatch>) -> bool {
        true
    }

    /// Returns the matches found in `text`.
    fn detect(&self, text: &str) -> (r: Vec<PIIMatch>)
        ensures
            self.found(text.spec_bytes(), r@),
    ;
}

/// The built-in detectors.
#[derive(Debug, Clone, Copy, PartialEq, Eq, Structural)]
pub enum BuiltinDetector {
    Email,
    CreditCard,
    Ip,
    MacAddress,
    Url,
}

/// The PII type a built-in detector reports.
pub open spec fn builtin_type(d: BuiltinDetector) -> Seq<char> {
    match d {
        BuiltinDetector::Email => "email"@,
        BuiltinDetector::CreditCard => "credit_card"@,
        BuiltinDetector::Ip => "ip"@,
        BuiltinDetector::MacAddress => "mac_address"@,
        BuiltinDetector::Url => "url"@,
    }
}

/// The byte ranges a built-in detector reports for text bytes `b`.
pub open spec fn builtin_spans(d: BuiltinDetector, b: Seq<u8>) -> Seq<(int, int)> {
    match d {
        BuiltinDetector::Email => email_spans(b, 0),
        BuiltinDetector::CreditCard => card_spans(b, 0),
        BuiltinDetector::Ip => ip_spans(b, 0),
        BuiltinDetector::MacAddress => mac_spans(b, 0),
        BuiltinDetector::Url => all_url_spans(b),
    }
}

impl BuiltinDetector {
    /// Runs this detector.
    pub fn run(&self, text: &str) -> (matches: Vec<PIIMatch>)
        ensures
            matches_are(text.spec_bytes(), matches@, builtin_spans(*self, text.spec_bytes()), builtin_type(*self)),
            matches_fit(text.spec_bytes(), matches@),
    {
        match self {
            BuiltinDetector::Email => detect_email(text),
            BuiltinDetector::CreditCard => detect_credit_card(text),
            BuiltinDetector::Ip => detect_ip(text),
            BuiltinDetector::MacAddress => detect_mac_address(text),
            BuiltinDetector::Url => detect_url(text),
        }
    }
}

impl PIIDetector for BuiltinDetector {
    open spec fn found(&self, b: Seq<u8>, ms: Seq<PIIMatch>) -> bool {
        matches_are(b, ms, builtin_spans(*self, b), builtin_type(*self))
    }

    fn detect(&self, text: &str) -> (matches: Vec<PIIMatch>)
        ensures
            matches_fit(text.spec_bytes(), matches@),
    {
        self.run(text)
    }
}

/// The built-in detectors, in registry order.
pub open spec fn builtin_order() -> Seq<BuiltinDetector> {
    seq![
        BuiltinDetector::Email,
        BuiltinDetector::CreditCard,
        BuiltinDetector::Ip,
        BuiltinDetector::MacAddress,
        BuiltinDetector::Url,
    ]
}

/// Looking a built-in detector up by the type it reports finds it again.
pub proof fn lemma_builtin_for_type(d: BuiltinDetector)
    ensures
        builtin_for(builtin_type(d)) == Some(d),
{
    reveal_strlit("email");
    reveal_strlit("credit_card");
    reveal_strlit("ip");
    reveal_strlit("mac_address");
    reveal_strlit("url");
    assert("credit_card"@[0] != "mac_address"@[0]);
    assert("email"@.len() != "credit_card"@.len());
    assert("email"@.len() != "ip"@.len());
    assert("email"@.len() != "mac_address"@.len());
    assert("email"@.len() != "url"@.len());
    assert("credit_card"@.len() != "ip"@.len());
    assert("credit_card"@.len() != "url"@.len());
    assert("ip"@.len() != "mac_address"@.len());
    assert("ip"@.len() != "url"@.len());
    assert("mac_address"@.len() != "url"@.len());
}

/// Returns a mapping of PII type names to their built-in detector functions.
pub fn builtin_detectors() -> (r: Vec<(&'static str, BuiltinDetector)>)
    ensures
        r@.len() == 5,
        forall|k: int|
            0 <= k < 5 ==> (#[trigger] r@[k]).1 == builtin_order()[k] && r@[k].0@ == builtin_type(
                r@[k].1,
            ),
        forall|k: int| 0 <= k < 5 ==> builtin_for((#[trigger] r@[k]).0@) == Some(r@[k].1),
{
    proof {
        lemma_builtin_for_type(BuiltinDetector::Email);
        lemma_builtin_for_type(BuiltinDetector::CreditCard);
        lemma_builtin_for_type(BuiltinDetector::Ip);
        lemma_builtin_for_type(BuiltinDetector::MacAddress);
        lemma_builtin_for_type(BuiltinDetector::Url);
    }
    vec![
        ("email", BuiltinDetector::Email),
        ("credit_card", BuiltinDetector::CreditCard),
        ("ip", BuiltinDetector::Ip),
        ("mac_address", BuiltinDetector::MacAddress),
        ("url", BuiltinDetector::Url),
    ]
}

/// The built-in detector for a PII type name.
pub open spec fn builtin_for(pii_type: Seq<char>) -> Option<BuiltinDetector> {
    if pii_type == "email"@ {
        Some(BuiltinDetector::Email)
    } else if pii_type == "credit_card"@ {
        Some(BuiltinDetector::CreditCard)
    } else if pii_type == "ip"@ {
        Some(BuiltinDetector::Ip)
    } else if pii_type == "mac_address"@ {
        Some(BuiltinDetector::MacAddress)
    } else if pii_type == "url"@ {
        Some(BuiltinDetector::Url)
    } else {
        None
    }
}

/// Get a built-in detector by PII type name, if one exists.
pub fn get_builtin_detector(pii_type: &str) -> (r: Option<BuiltinDetector>)
    ensures
        r == builtin_for(pii_type@),
{
    if str_eq(pii_type, "email") {
        Some(BuiltinDetector::Email)
    } else if str_eq(pii_type, "credit_card") {
        Some(BuiltinDetector::CreditCard)
    } else if str_eq(pii_type, "ip") {
        Some(BuiltinDetector::Ip)
    } else if str_eq(pii_type, "mac_address") {
        Some(BuiltinDetector::MacAddress)
    } else if str_eq(pii_type, "url") {
        Some(BuiltinDetector::Url)
    } else {
        None
    }
}

// ---------------------------------------------------------------------------
// Strategies
// ---------------------------------------------------------------------------

/// Errors that can occur during PII detection.
#[derive(Debug, Clone)]
pub enum PIIDetectionError {
    /// The input text was invalid or could not be processed.
    InvalidInput(String),
    /// A detector encountered an internal error.
    DetectorError(String),
}

impl PIIDetectionError {
    /// The message of this error, as it is shown to users.
    pub fn to_string(&self) -> (r: String)
        ensures
            r@ == match self {
                PIIDetectionError::InvalidInput(m) => "Invalid input: "@ + m@,
                PIIDetectionError::DetectorError(m) => "Detector error: "@ + m@,
            },
    {
        match self {
            PIIDetectionError::InvalidInput(m) => {
                let mut r = String::from_str("Invalid input: ");
                push_string(&mut r, m);
                r
            },
            PIIDetectionError::DetectorError(m) => {
                let mut r = String::from_str("Detector error: ");
                push_string(&mut r, m);
                r
            },
        }
    }
}

/// Strategy for handling detected PII.
#[derive(Debug, Clone, Copy, PartialEq, Eq, Structural)]
pub enum RedactionStrategy {
    /// Block the entire message from proceeding.
    Block,
    /// Replace the PII with a placeholder like `[REDACTED]`.
    Redact,
    /// Mask the PII, preserving length (e.g., `****@****.***`).
    Mask,
    /// Replace the PII with a deterministic hash.
    Hash,
}

/// A rule mapping a PII type to a redaction strategy.
#[derive(Debug, Clone)]
pub struct RedactionRule {
    /// The PII type this rule applies to (e.g., "email", "credit_card").
    pub pii_type: String,
    /// The strategy to apply when this PII type is detected.
    pub strategy: RedactionStrategy,
}

/// A resolved redaction rule: a specific match paired with the strategy to apply.
#[derive(Debug, Clone)]
pub struct ResolvedRedactionRule {
    /// The detected PII match.
    pub pii_match: PIIMatch,
    /// The strategy to apply.
    pub strategy: RedactionStrategy,
}

/// A character with every alphanumeric character replaced by `*`.
pub open spec fn mask_char(c: char) -> char {
    if char_is_alphanumeric(c) {
        '*'
    } else {
        c
    }
}

/// Every alphanumeric character replaced by `*`, others kept.
pub open spec fn uniform_mask_spec(v: Seq<char>) -> Seq<char> {
    Seq::new(v.len(), |i: int| mask_char(v[i]))
}

/// Index of the first occurrence of `c` in `v`, or -1.
pub open spec fn first_index(v: Seq<char>, c: char) -> int
    decreases v.len(),
{
    if v.len() == 0 {
        -1
    } else if v[0] == c {
        0
    } else if first_index(v.drop_first(), c) < 0 {
        -1
    } else {
        first_index(v.drop_first(), c) + 1
    }
}

/// Index of the last occurrence of `c` in `v`, or -1.
pub open spec fn last_index(v: Seq<char>, c: char) -> int
    decreases v.len(),
{
    if v.len() == 0 {
        -1
    } else if v.last() == c {
        v.len() - 1
    } else {
        last_index(v.drop_last(), c)
    }
}

/// Email mask: first character of the local part kept, the rest of it masked;
/// the domain masked up to its last dot, the TLD kept.
pub open spec fn mask_email_spec(v: Seq<char>) -> Seq<char> {
    let at = first_index(v, '@');
    if at < 0 {
        uniform_mask_spec(v)
    } else {
        let local = v.subrange(0, at);
        let domain = v.subrange(at + 1, v.len() as int);
        let masked_local = Seq::new(
            local.len(),
            |i: int|
                if i == 0 {
                    local[i]
                } else {
                    mask_char(local[i])
                },
        );
        let dot = last_index(domain, '.');
        let masked_domain = if dot >= 0 {
            uniform_mask_spec(domain.subrange(0, dot)) + domain.subrange(dot, domain.len() as int)
        } else {
            uniform_mask_spec(domain)
        };
        masked_local + seq!['@'] + masked_domain
    }
}

/// The ASCII digits of `v`, in order.
pub open spec fn ascii_digit_chars(v: Seq<char>) -> Seq<char>
    decreases v.len(),
{
    if v.len() == 0 {
        seq![]
    } else if '0' <= v.last() && v.last() <= '9' {
        ascii_digit_chars(v.drop_last()).push(v.last())
    } else {
        ascii_digit_chars(v.drop_last())
    }
}

/// Card mask: `****-****-****-` and the last four digits.
pub open spec fn mask_card_spec(v: Seq<char>) -> Seq<char> {
    let d = ascii_digit_chars(v);
    if d.len() >= 4 {
        "****-****-****-"@ + d.subrange(d.len() - 4, d.len() as int)
    } else {
        uniform_mask_spec(v)
    }
}

/// Number of occurrences of `c` in `v`.
pub open spec fn count_char(v: Seq<char>, c: char) -> int
    decreases v.len(),
{
    if v.len() == 0 {
        0
    } else {
        count_char(v.drop_last(), c) + if v.last() == c {
            1int
        } else {
            0
        }
    }
}

/// IP mask: `*.*.*.` and the last dot-separated part, when there are four parts.
pub open spec fn mask_ip_spec(v: Seq<char>) -> Seq<char> {
    if count_char(v, '.') == 3 {
        "*.*.*."@ + v.subrange(last_index(v, '.') + 1, v.len() as int)
    } else {
        uniform_mask_spec(v)
    }
}

/// Type-specific mask of a matched value.
pub open spec fn mask_by_type_spec(pii_type: Seq<char>, value: Seq<char>) -> Seq<char> {
    if pii_type == "email"@ {
        mask_email_spec(value)
    } else if pii_type == "credit_card"@ {
        mask_card_spec(value)
    } else if pii_type == "ip"@ {
        mask_ip_spec(value)
    } else {
        uniform_mask_spec(value)
    }
}

/// One step of the DJB2 hash.
pub open spec fn djb2_step(h: u64, byte: u8) -> u64 {
    vstd::wrapping::u64_specs::wrapping_add(
        vstd::wrapping::u64_specs::wrapping_mul(h, 33),
        byte as u64,
    )
}

/// DJB2 hash of a byte sequence, wrapping at 64 bits.
pub open spec fn djb2(s: Seq<u8>) -> u64
    decreases s.len(),
{
    if s.len() == 0 {
        5381
    } else {
        djb2_step(djb2(s.drop_last()), s.last())
    }
}

/// Lower-case hexadecimal digit.
pub open spec fn hex_char(d: int) -> char {
    if d < 10 {
        (0x30 + d) as char
    } else {
        (0x61 + d - 10) as char
    }
}

/// The last `n` hexadecimal digits of `v`, most significant first, zero padded.
pub open spec fn hex_digits(v: nat, n: nat) -> Seq<char>
    decreases n,
{
    if n == 0 {
        seq![]
    } else {
        hex_digits(v / 16, (n - 1) as nat).push(hex_char((v % 16) as int))
    }
}

/// The text that replaces a match of the given type and text under a
/// (non-blocking) strategy.
pub open spec fn replacement_text(
    pii_type: Seq<char>,
    value: Seq<char>,
    strategy: RedactionStrategy,
) -> Seq<char> {
    match strategy {
        RedactionStrategy::Block => seq![],
        RedactionStrategy::Redact => "[REDACTED_"@ + uppercase_of(pii_type) + "]"@,
        RedactionStrategy::Mask => mask_by_type_spec(pii_type, value),
        RedactionStrategy::Hash => "[HASH:"@ + hex_digits(djb2(encode_utf8(value)) as nat, 16) + "]"@,
    }
}

/// The text that replaces a match under a (non-blocking) strategy.
pub open spec fn replacement(m: PIIMatch, strategy: RedactionStrategy) -> Seq<char> {
    replacement_text(m.pii_type@, m.value@, strategy)
}

/// The message a blocking strategy reports.
pub open spec fn block_message(pii_type: Seq<char>) -> Seq<char> {
    "PII of type '"@ + pii_type + "' detected and blocked"@
}

/// Whether a strategy can be applied to `text` at the match: blocking never
/// touches the text; the others cut it at both ends of the match.
pub open spec fn step_ok(text: Seq<char>, m: PIIMatch, strategy: RedactionStrategy) -> bool {
    strategy == RedactionStrategy::Block || (cut_point(encode_utf8(text), m.start as int)
        && cut_point(encode_utf8(text), m.end as int))
}

/// The result of applying a strategy to one match.
pub open spec fn step_result(text: Seq<char>, m: PIIMatch, strategy: RedactionStrategy) -> Result<
    Seq<char>,
    Seq<char>,
> {
    let b = encode_utf8(text);
    if strategy == RedactionStrategy::Block {
        Err(block_message(m.pii_type@))
    } else {
        Ok(decode_range(b, 0, m.start as int) + replacement(m, strategy) + decode_range(
            b,
            m.end as int,
            b.len() as int,
        ))
    }
}

/// Whether `r` reports exactly the spec-level outcome `o`.
pub open spec fn outcome_is(r: Result<String, PIIDetectionError>, o: Result<Seq<char>, Seq<char>>) -> bool {
    match o {
        Ok(t) => r matches Ok(s) && s@ == t,
        Err(msg) => r matches Err(PIIDetectionError::InvalidInput(e)) && e@ == msg,
    }
}

/// Replace alphanumeric characters with `*`, preserve others.
pub fn uniform_mask(value: &str) -> (r: String)
    ensures
        r@ == uniform_mask_spec(value@),
{
    let v = chars_of(value);
    let mut out = String::new();
    let mut i: usize = 0;
    while i < v.len()
        invariant
            v@ == value@,
            i <= v@.len(),
            out@ == uniform_mask_spec(value@).subrange(0, i as int),
        decreases v.len() - i,
    {
        let c = v[i];
        if is_alphanumeric(c) {
            push_char(&mut out, '*');
        } else {
            push_char(&mut out, c);
        }
        proof {
            assert(uniform_mask_spec(value@).subrange(0, i + 1) =~= uniform_mask_spec(
                value@,
            ).subrange(0, i as int).push(mask_char(value@[i as int])));
        }
        i = i + 1;
    }
    assert(uniform_mask_spec(value@).subrange(0, v@.len() as int) =~= uniform_mask_spec(value@));
    out
}

fn mask_range(v: &Vec<char>, from: usize, to: usize, out: &mut String)
    requires
        from <= to <= v@.len(),
    ensures
        final(out)@ == old(out)@ + uniform_mask_spec(v@.subrange(from as int, to as int)),
{
    let ghost o0 = out@;
    let ghost w = v@.subrange(from as int, to as int);
    let mut i = from;
    while i < to
        invariant
            from <= i <= to <= v@.len(),
            w == v@.subrange(from as int, to as int),
            out@ == o0 + uniform_mask_spec(w).subrange(0, i - from),
        decreases to - i,
    {
        let c = v[i];
        if is_alphanumeric(c) {
            push_char(out, '*');
        } else {
            push_char(out, c);
        }
        proof {
            assert(uniform_mask_spec(w).subrange(0, i + 1 - from) =~= uniform_mask_spec(w).subrange(
                0,
                i - from,
            ).push(mask_char(w[i - from])));
        }
        i = i + 1;
    }
    assert(uniform_mask_spec(w).subrange(0, to - from) =~= uniform_mask_spec(w));
}

fn first_pos(v: &Vec<char>, c: char) -> (r: Option<usize>)
    ensures
        r == if first_index(v@, c) < 0 {
            None::<usize>
        } else {
            Some(first_index(v@, c) as usize)
        },
        r matches Some(k) ==> k < v@.len() && v@[k as int] == c && k == first_index(v@, c),
        r is None ==> first_index(v@, c) < 0,
{
    let mut i: usize = 0;
    while i < v.len()
        invariant
            i <= v@.len(),
            forall|k: int| 0 <= k < i ==> v@[k] != c,
        decreases v.len() - i,
    {
        if v[i] == c {
            proof {
                lemma_first_index(v@, c, i as int);
            }
            return Some(i);
        }
        i = i + 1;
    }
    proof {
        lemma_first_index_none(v@, c);
    }
    None
}

pub proof fn lemma_first_index(v: Seq<char>, c: char, i: int)
    requires
        0 <= i < v.len(),
        v[i] == c,
        forall|k: int| 0 <= k < i ==> v[k] != c,
    ensures
        first_index(v, c) == i,
    decreases i,
{
    if i > 0 {
        lemma_first_index(v.drop_first(), c, i - 1);
    }
}

pub proof fn lemma_first_index_none(v: Seq<char>, c: char)
    requires
        forall|k: int| 0 <= k < v.len() ==> v[k] != c,
    ensures
        first_index(v, c) == -1,
    decreases v.len(),
{
    if v.len() > 0 {
        lemma_first_index_none(v.drop_first(), c);
    }
}

fn last_pos(v: &Vec<char>, from: usize, c: char) -> (r: Option<usize>)
    requires
        from <= v@.len(),
    ensures
        r == if last_index(v@.subrange(from as int, v@.len() as int), c) < 0 {
            None::<usize>
        } else {
            Some((from + last_index(v@.subrange(from as int, v@.len() as int), c)) as usize)
        },
        r matches Some(k) ==> from <= k < v@.len() && v@[k as int] == c && k == from + last_index(
            v@.subrange(from as int, v@.len() as int),
            c,
        ),
        r is None ==> last_index(v@.subrange(from as int, v@.len() as int), c) < 0,
{
    let ghost w = v@.subrange(from as int, v@.len() as int);
    assert(w.subrange(0, w.len() as int) =~= w);
    let mut i = v.len();
    while i > from
        invariant
            from <= i <= v@.len(),
            w == v@.subrange(from as int, v@.len() as int),
            last_index(w, c) == last_index(w.subrange(0, i - from), c),
        decreases i,
    {
        let ghost pre = w.subrange(0, i - from);
        assert(pre.drop_last() =~= w.subrange(0, i - 1 - from));
        if v[i - 1] == c {
            return Some(i - 1);
        }
        i = i - 1;
    }
    None
}

/// Mask an email: keep first char of local part, mask rest, mask domain except TLD.
pub fn mask_email(value: &str) -> (r: String)
    ensures
        r@ == mask_email_spec(value@),
{
    let v = chars_of(value);
    match first_pos(&v, '@') {
        None => uniform_mask(value),
        Some(at) => {
            let ghost local = v@.subrange(0, at as int);
            let ghost domain = v@.subrange(at + 1, v@.len() as int);
            let ghost ml = Seq::new(
                local.len(),
                |i: int|
                    if i == 0 {
                        local[i]
                    } else {
                        mask_char(local[i])
                    },
            );
            let mut out = String::new();
            if at > 0 {
                push_char(&mut out, v[0]);
                mask_range(&v, 1, at, &mut out);
                assert(ml =~= seq![v@[0]] + uniform_mask_spec(v@.subrange(1, at as int)));
            } else {
                assert(ml =~= seq![]);
            }
            assert(out@ =~= ml);
            push_char(&mut out, '@');
            assert(at < v.len());
            let ghost md;
            match last_pos(&v, at + 1, '.') {
                Some(dot) => {
                    let ghost o0 = out@;
                    mask_range(&v, at + 1, dot, &mut out);
                    let mut k = dot;
                    let ghost o1 = out@;
                    while k < v.len()
                        invariant
                            dot <= k <= v@.len(),
                            out@ == o1 + v@.subrange(dot as int, k as int),
                        decreases v.len() - k,
                    {
                        push_char(&mut out, v[k]);
                        assert(v@.subrange(dot as int, k + 1) =~= v@.subrange(dot as int, k as int).push(
                            v@[k as int],
                        ));
                        k = k + 1;
                    }
                    proof {
                        let d = last_index(domain, '.');
                        assert(domain.subrange(0, d) =~= v@.subrange(at + 1, dot as int));
                        assert(domain.subrange(d, domain.len() as int) =~= v@.subrange(
                            dot as int,
                            v@.len() as int,
                        ));
                        md = uniform_mask_spec(domain.subrange(0, d)) + domain.subrange(
                            d,
                            domain.len() as int,
                        );
                        assert(out@ =~= o0 + md);
                    }
                },
                None => {
                    let ghost o0 = out@;
                    mask_range(&v, at + 1, v.len(), &mut out);
                    proof {
                        md = uniform_mask_spec(domain);
                        assert(out@ =~= o0 + md);
                    }
                },
            }
            proof {
                assert(out@ =~= ml + seq!['@'] + md);
                assert(first_index(value@, '@') == at as int);
            }
            out
        },
    }
}

fn digit_chars(v: &Vec<char>) -> (d: Vec<char>)
    ensures
        d@ == ascii_digit_chars(v@),
{
    let mut d: Vec<char> = Vec::new();
    let mut i: usize = 0;
    while i < v.len()
        invariant
            i <= v@.len(),
            d@ == ascii_digit_chars(v@.subrange(0, i as int)),
        decreases v.len() - i,
    {
        let c = v[i];
        assert(v@.subrange(0, i + 1).drop_last() =~= v@.subrange(0, i as int));
        if '0' <= c && c <= '9' {
            d.push(c);
        }
        i = i + 1;
    }
    assert(v@.subrange(0, v@.len() as int) =~= v@);
    d
}

/// Mask a credit card: show last 4 digits in format `****-****-****-NNNN`.
pub fn mask_credit_card(value: &str) -> (r: String)
    ensures
        r@ == mask_card_spec(value@),
{
    let v = chars_of(value);
    let d = digit_chars(&v);
    if d.len() >= 4 {
        let mut out = String::from_str("****-****-****-");
        let mut k = d.len() - 4;
        let ghost o1 = out@;
        while k < d.len()
            invariant
                d@.len() >= 4,
                d@.len() - 4 <= k <= d@.len(),
                out@ == o1 + d@.subrange(d@.len() - 4, k as int),
            decreases d.len() - k,
        {
            push_char(&mut out, d[k]);
            assert(d@.subrange(d@.len() - 4, k + 1) =~= d@.subrange(d@.len() - 4, k as int).push(
                d@[k as int],
            ));
            k = k + 1;
        }
        out
    } else {
        uniform_mask(value)
    }
}

fn count_dots(v: &Vec<char>) -> (n: usize)
    ensures
        n == count_char(v@, '.'),
{
    let mut n: usize = 0;
    let mut i: usize = 0;
    while i < v.len()
        invariant
            i <= v@.len(),
            n == count_char(v@.subrange(0, i as int), '.'),
            n <= i,
        decreases v.len() - i,
    {
        assert(v@.subrange(0, i + 1).drop_last() =~= v@.subrange(0, i as int));
        if v[i] == '.' {
            n = n + 1;
        }
        i = i + 1;
    }
    assert(v@.subrange(0, v@.len() as int) =~= v@);
    n
}

/// Mask an IP address: `*.*.*.<last_octet>`.
pub fn mask_ip(value: &str) -> (r: String)
    ensures
        r@ == mask_ip_spec(value@),
{
    let v = chars_of(value);
    if count_dots(&v) == 3 {
        let mut out = String::from_str("*.*.*.");
        let ghost o1 = out@;
        assert(v@.subrange(0, v@.len() as int) =~= v@);
        match last_pos(&v, 0, '.') {
            Some(dot) => {
                assert(v@.subrange(0, v@.len() as int) =~= v@);
                assert(dot < v.len());
                let mut k = dot + 1;
                while k < v.len()
                    invariant
                        dot + 1 <= k <= v@.len(),
                        out@ == o1 + v@.subrange(dot + 1, k as int),
                    decreases v.len() - k,
                {
                    push_char(&mut out, v[k]);
                    assert(v@.subrange(dot + 1, k + 1) =~= v@.subrange(dot + 1, k as int).push(
                        v@[k as int],
                    ));
                    k = k + 1;
                }
                out
            },
            None => {
                proof {
                    assert(v@.subrange(0, v@.len() as int) =~= v@);
                    lemma_count_without(v@, '.');
                }
                out
            },
        }
    } else {
        uniform_mask(value)
    }
}

pub proof fn lemma_count_without(v: Seq<char>, c: char)
    requires
        last_index(v, c) < 0,
    ensures
        count_char(v, c) == 0,
    decreases v.len(),
{
    if v.len() > 0 {
        lemma_count_without(v.drop_last(), c);
    }
}

/// Type-specific masking for PII values.
pub fn mask_by_type(pii_type: &str, value: &str) -> (r: String)
    ensures
        r@ == mask_by_type_spec(pii_type@, value@),
{
    if str_eq(pii_type, "email") {
        mask_email(value)
    } else if str_eq(pii_type, "credit_card") {
        mask_credit_card(value)
    } else if str_eq(pii_type, "ip") {
        mask_ip(value)
    } else {
        uniform_mask(value)
    }
}

fn hex_digit_char(d: u64) -> (c: char)
    requires
        d < 16,
    ensures
        c == hex_char(d as int),
{
    if d < 10 {
        ((0x30 + d) as u8) as char
    } else {
        ((0x61 + d - 10) as u8) as char
    }
}

/// Simple non-cryptographic hash for PII obfuscation: DJB2 over the bytes,
/// rendered as sixteen lower-case hex digits.
pub fn simple_hash(input: &str) -> (r: String)
    ensures
        r@ == hex_digits(djb2(input.spec_bytes()) as nat, 16),
{
    let bytes = input.as_bytes();
    let mut h: u64 = 5381;
    let mut i: usize = 0;
    while i < bytes.len()
        invariant
            i <= bytes@.len(),
            bytes@ == input.spec_bytes(),
            h == djb2(bytes@.subrange(0, i as int)),
        decreases bytes.len() - i,
    {
        assert(bytes@.subrange(0, i + 1).drop_last() =~= bytes@.subrange(0, i as int));
        h = h.wrapping_mul(33).wrapping_add(bytes[i] as u64);
        i = i + 1;
    }
    assert(bytes@.subrange(0, bytes@.len() as int) =~= bytes@);
    let mut digits: Vec<char> = Vec::new();
    let mut cur: u64 = h;
    let mut k: usize = 0;
    while k < 16
        invariant
            k <= 16,
            hex_digits(h as nat, 16) == hex_digits(cur as nat, (16 - k) as nat) + digits@,
        decreases 16 - k,
    {
        let c = hex_digit_char(cur % 16);
        digits.insert(0, c);
        proof {
            assert(hex_digits(cur as nat, (16 - k) as nat) == hex_digits(
                (cur / 16) as nat,
                (16 - k - 1) as nat,
            ).push(hex_char((cur % 16) as int)));
            assert(hex_digits((cur / 16) as nat, (16 - k - 1) as nat).push(
                hex_char((cur % 16) as int),
            ) + old_digits_of(digits@) =~= hex_digits((cur / 16) as nat, (16 - k - 1) as nat)
                + digits@);
        }
        cur = cur / 16;
        k = k + 1;
    }
    assert(hex_digits(cur as nat, 0) =~= seq![]);
    assert(hex_digits(h as nat, 16) =~= digits@);
    string_of_chars(&digits)
}

/// The digits written so far, without the one just placed in front.
pub open spec fn old_digits_of(d: Seq<char>) -> Seq<char> {
    d.drop_first()
}

/// Apply a redaction strategy to a PII match within text, returning the modified text.
///
/// Returns `Err(PIIDetectionError)` for `Block` strategy — the caller should prevent
/// the message from proceeding.
pub fn apply_strategy(text: &str, pii_match: &PIIMatch, strategy: &RedactionStrategy) -> (r: Result<
    String,
    PIIDetectionError,
>)
    requires
        step_ok(text@, *pii_match, *strategy),
    ensures
        outcome_is(r, step_result(text@, *pii_match, *strategy)),
{
    match strategy {
        RedactionStrategy::Block => {
            let mut msg = String::from_str("PII of type '");
            push_string(&mut msg, &pii_match.pii_type);
            msg.append("' detected and blocked");
            assert(msg@ == block_message(pii_match.pii_type@));
            let out = Err(PIIDetectionError::InvalidInput(msg));
            assert(step_result(text@, *pii_match, *strategy) == Err::<Seq<char>, Seq<char>>(
                block_message(pii_match.pii_type@),
            ));
            assert(outcome_is(out, Err(block_message(pii_match.pii_type@))));
            out
        },
        _ => {
            let mut result = String::from_str(byte_prefix(text, pii_match.start));
            match strategy {
                RedactionStrategy::Redact => {
                    result.append("[REDACTED_");
                    let up = to_uppercase(pii_match.pii_type.as_str());
                    push_string(&mut result, &up);
                    result.append("]");
                },
                RedactionStrategy::Mask => {
                    let mask = mask_by_type(pii_match.pii_type.as_str(), pii_match.value.as_str());
                    push_string(&mut result, &mask);
                },
                _ => {
                    let hash = simple_hash(pii_match.value.as_str());
                    result.append("[HASH:");
                    push_string(&mut result, &hash);
                    result.append("]");
                },
            }
            result.append(byte_suffix(text, pii_match.end));
            assert(result@ == decode_range(text.spec_bytes(), 0, pii_match.start as int)
                + replacement(*pii_match, *strategy) + decode_range(
                text.spec_bytes(),
                pii_match.end as int,
                text.spec_bytes().len() as int,
            ));
            Ok(result)
        },
    }
}

/// Whether every step of applying `rules` in order can be carried out.
pub open spec fn rules_ok(text: Seq<char>, rules: Seq<ResolvedRedactionRule>) -> bool
    decreases rules.len(),
{
    rules.len() == 0 || (step_ok(text, rules[0].pii_match, rules[0].strategy) && match step_result(
        text,
        rules[0].pii_match,
        rules[0].strategy,
    ) {
        Ok(t) => rules_ok(t, rules.drop_first()),
        Err(_) => true,
    })
}

/// The outcome of applying `rules` in order, stopping at the first block.
pub open spec fn apply_rules_spec(text: Seq<char>, rules: Seq<ResolvedRedactionRule>) -> Result<
    Seq<char>,
    Seq<char>,
>
    decreases rules.len(),
{
    if rules.len() == 0 {
        Ok(text)
    } else {
        match step_result(text, rules[0].pii_match, rules[0].strategy) {
            Ok(t) => apply_rules_spec(t, rules.drop_first()),
            Err(e) => Err(e),
        }
    }
}

/// Position at which `x` goes into a list sorted by descending start:
/// after every element whose start is at least its own.
pub open spec fn insert_pos(s: Seq<ResolvedRedactionRule>, x: ResolvedRedactionRule) -> int
    decreases s.len(),
{
    if s.len() == 0 {
        0
    } else if s[0].pii_match.start < x.pii_match.start {
        0
    } else {
        1 + insert_pos(s.drop_first(), x)
    }
}

/// `s` sorted by descending start, equal starts kept in their original order.
pub open spec fn sorted_by_start_desc(s: Seq<ResolvedRedactionRule>) -> Seq<ResolvedRedactionRule>
    decreases s.len(),
{
    if s.len() == 0 {
        seq![]
    } else {
        let t = sorted_by_start_desc(s.drop_last());
        t.insert(insert_pos(t, s.last()), s.last())
    }
}

pub proof fn lemma_insert_pos_bounds(s: Seq<ResolvedRedactionRule>, x: ResolvedRedactionRule)
    ensures
        0 <= insert_pos(s, x) <= s.len(),
    decreases s.len(),
{
    if s.len() > 0 && s[0].pii_match.start >= x.pii_match.start {
        lemma_insert_pos_bounds(s.drop_first(), x);
    }
}

pub proof fn lemma_sorted_len(s: Seq<ResolvedRedactionRule>)
    ensures
        sorted_by_start_desc(s).len() == s.len(),
    decreases s.len(),
{
    if s.len() > 0 {
        lemma_sorted_len(s.drop_last());
        lemma_insert_pos_bounds(sorted_by_start_desc(s.drop_last()), s.last());
    }
}

fn find_insert_pos(v: &Vec<ResolvedRedactionRule>, x: &ResolvedRedactionRule) -> (k: usize)
    ensures
        k == insert_pos(v@, *x),
{
    let mut k: usize = 0;
    assert(v@.subrange(0, v@.len() as int) =~= v@);
    while k < v.len() && v[k].pii_match.start >= x.pii_match.start
        invariant
            k <= v@.len(),
            insert_pos(v@, *x) == k + insert_pos(v@.subrange(k as int, v@.len() as int), *x),
        decreases v.len() - k,
    {
        assert(v@.subrange(k as int, v@.len() as int).drop_first() =~= v@.subrange(
            k + 1,
            v@.len() as int,
        ));
        k = k + 1;
    }
    proof {
        lemma_insert_pos_bounds(v@.subrange(k as int, v@.len() as int), *x);
    }
    k
}

/// Sorts rules by descending start, keeping rules with equal starts in order.
pub fn sort_rules_by_start_desc(rules: Vec<ResolvedRedactionRule>) -> (out: Vec<ResolvedRedactionRule>)
    ensures
        out@ == sorted_by_start_desc(rules@),
{
    let mut rules = rules;
    let ghost all = rules@;
    let mut out: Vec<ResolvedRedactionRule> = Vec::new();
    let mut taken: usize = 0;
    assert(all.subrange(0, all.len() as int) =~= all);
    assert(all.subrange(0, 0) =~= seq![]);
    assert(all.len() == rules.len());
    while rules.len() > 0
        invariant
            all.len() <= usize::MAX,
            taken + rules@.len() == all.len(),
            rules@ == all.subrange(taken as int, all.len() as int),
            out@ == sorted_by_start_desc(all.subrange(0, taken as int)),
        decreases rules.len(),
    {
        let x = rules.remove(0);
        proof {
            assert(all.subrange(0, taken + 1).drop_last() =~= all.subrange(0, taken as int));
            assert(all.subrange(0, taken + 1).last() == x);
            lemma_sorted_len(all.subrange(0, taken as int));
        }
        let k = find_insert_pos(&out, &x);
        proof {
            lemma_insert_pos_bounds(out@, x);
        }
        out.insert(k, x);
        taken = taken + 1;
        assert(rules@ =~= all.subrange(taken as int, all.len() as int));
    }
    assert(all.subrange(0, all.len() as int) =~= all);
    out
}

fn apply_in_order(text: &str, rules: Vec<ResolvedRedactionRule>) -> (r: Result<String, PIIDetectionError>)
    requires
        rules_ok(text@, rules@),
    ensures
        outcome_is(r, apply_rules_spec(text@, rules@)),
{
    let ghost all = rules@;
    let mut result = String::from_str(text);
    let mut k: usize = 0;
    assert(all.subrange(0, all.len() as int) =~= all);
    while k < rules.len()
        invariant
            rules@ == all,
            k <= all.len(),
            rules_ok(result@, all.subrange(k as int, all.len() as int)),
            apply_rules_spec(text@, all) == apply_rules_spec(
                result@,
                all.subrange(k as int, all.len() as int),
            ),
        decreases rules.len() - k,
    {
        let ghost rest = all.subrange(k as int, all.len() as int);
        assert(rest.drop_first() =~= all.subrange(k + 1, all.len() as int));
        assert(rest[0] == rules@[k as int]);
        let step = apply_strategy(result.as_str(), &rules[k].pii_match, &rules[k].strategy);
        match step {
            Ok(t) => {
                result = t;
            },
            Err(e) => {
                return Err(e);
            },
        }
        k = k + 1;
    }
    assert(all.subrange(k as int, all.len() as int) =~= seq![]);
    Ok(result)
}

/// Apply multiple resolved rules to text. Rules are applied from right to left
/// (by descending start) to preserve offsets.
///
/// Returns `Err` if any rule uses the `Block` strategy.
pub fn apply_rules(text: &str, rules: Vec<ResolvedRedactionRule>) -> (r: Result<String, PIIDetectionError>)
    requires
        rules_ok(text@, sorted_by_start_desc(rules@)),
    ensures
        outcome_is(r, apply_rules_spec(text@, sorted_by_start_desc(rules@))),
{
    let sorted = sort_rules_by_start_desc(rules);
    apply_in_order(text, sorted)
}

/// The rules that apply one strategy to each match.
pub open spec fn rules_for(matches: Seq<PIIMatch>, strategy: RedactionStrategy) -> Seq<
    ResolvedRedactionRule,
> {
    Seq::new(matches.len(), |k: int| ResolvedRedactionRule { pii_match: matches[k], strategy })
}

fn make_rules(matches: Vec<PIIMatch>, strategy: &RedactionStrategy) -> (rules: Vec<ResolvedRedactionRule>)
    ensures
        rules@ == rules_for(matches@, *strategy),
{
    let mut matches = matches;
    let ghost all = matches@;
    let mut rules: Vec<ResolvedRedactionRule> = Vec::new();
    while matches.len() > 0
        invariant
            rules@.len() + matches@.len() == all.len(),
            matches@ == all.subrange(rules@.len() as int, all.len() as int),
            rules@ == rules_for(all.subrange(0, rules@.len() as int), *strategy),
        decreases matches.len(),
    {
        let m = matches.remove(0);
        let ghost n = rules@.len();
        rules.push(ResolvedRedactionRule { pii_match: m, strategy: *strategy });
        assert(rules@ =~= rules_for(all.subrange(0, rules@.len() as int), *strategy));
        assert(matches@ =~= all.subrange(rules@.len() as int, all.len() as int));
    }
    assert(all.subrange(0, all.len() as int) =~= all);
    rules
}

/// Apply multiple PII matches with a single strategy, processing from end to start
/// to preserve byte offsets.
pub fn apply_matches(text: &str, matches: Vec<PIIMatch>, strategy: &RedactionStrategy) -> (r: Result<
    String,
    PIIDetectionError,
>)
    requires
        rules_ok(text@, sorted_by_start_desc(rules_for(matches@, *strategy))),
    ensures
        outcome_is(r, apply_rules_spec(text@, sorted_by_start_desc(rules_for(matches@, *strategy)))),
{
    if matches.len() == 0 {
        proof {
            assert(rules_for(matches@, *strategy) =~= seq![]);
        }
        return Ok(String::from_str(text));
    }
    let rules = make_rules(matches, strategy);
    apply_rules(text, rules)
}

// ---------------------------------------------------------------------------
// Laws of applying rules
// ---------------------------------------------------------------------------

/// Whether some rule of `rules` blocks.
pub open spec fn some_block(rules: Seq<ResolvedRedactionRule>) -> bool {
    exists|i: int| 0 <= i < rules.len() && (#[trigger] rules[i]).strategy == RedactionStrategy::Block
}

/// No two rules start at the same offset.
pub open spec fn distinct_starts(rules: Seq<ResolvedRedactionRule>) -> bool {
    forall|i: int, j: int|
        0 <= i < j < rules.len() ==> (#[trigger] rules[i]).pii_match.start != (#[trigger] rules[j]).pii_match.start
}

/// Applying rules in turn fails exactly when one of them blocks.
proof fn lemma_spec_err_iff_block(text: Seq<char>, rules: Seq<ResolvedRedactionRule>)
    ensures
        apply_rules_spec(text, rules) is Err <==> some_block(rules),
    decreases rules.len(),
{
    if rules.len() > 0 {
        match step_result(text, rules[0].pii_match, rules[0].strategy) {
            Ok(t) => {
                lemma_spec_err_iff_block(t, rules.drop_first());
                if some_block(rules.drop_first()) {
                    let i = choose|i: int|
                        0 <= i < rules.drop_first().len() && (#[trigger] rules.drop_first()[i]).strategy
                            == RedactionStrategy::Block;
                    assert(rules[i + 1] == rules.drop_first()[i]);
                }
                if some_block(rules) {
                    let i = choose|i: int| 0 <= i < rules.len() && (#[trigger] rules[i]).strategy
                        == RedactionStrategy::Block;
                    assert(i != 0);
                    assert(rules.drop_first()[i - 1] == rules[i]);
                }
            },
            Err(_) => {
                assert(rules[0].strategy == RedactionStrategy::Block);
            },
        }
    }
}

/// Sorting keeps the rules, with their multiplicities.
proof fn lemma_sorted_multiset(s: Seq<ResolvedRedactionRule>)
    ensures
        sorted_by_start_desc(s).to_multiset() == s.to_multiset(),
    decreases s.len(),
{
    if s.len() == 0 {
        assert(sorted_by_start_desc(s) =~= s);
    } else {
        let t = sorted_by_start_desc(s.drop_last());
        lemma_sorted_multiset(s.drop_last());
        lemma_insert_pos_bounds(t, s.last());
        assert(s =~= s.drop_last().push(s.last()));
        vstd::seq_lib::to_multiset_build(s.drop_last(), s.last());
        vstd::seq_lib::to_multiset_insert(t, insert_pos(t, s.last()), s.last());
        assert(sorted_by_start_desc(s).to_multiset() == t.to_multiset().insert(s.last()));
    }
}

/// A rule goes in after every rule starting at or after it, before the first
/// starting before it.
proof fn lemma_insert_pos_place(t: Seq<ResolvedRedactionRule>, x: ResolvedRedactionRule)
    ensures
        forall|k: int| 0 <= k < insert_pos(t, x) ==> (#[trigger] t[k]).pii_match.start >= x.pii_match.start,
        insert_pos(t, x) < t.len() ==> t[insert_pos(t, x)].pii_match.start < x.pii_match.start,
    decreases t.len(),
{
    lemma_insert_pos_bounds(t, x);
    if t.len() > 0 && t[0].pii_match.start >= x.pii_match.start {
        lemma_insert_pos_place(t.drop_first(), x);
        lemma_insert_pos_bounds(t.drop_first(), x);
        assert forall|k: int| 0 <= k < insert_pos(t, x) implies (#[trigger] t[k]).pii_match.start
            >= x.pii_match.start by {
            if k > 0 {
                assert(t[k] == t.drop_first()[k - 1]);
            }
        }
        if insert_pos(t, x) < t.len() {
            assert(t[insert_pos(t, x)] == t.drop_first()[insert_pos(t.drop_first(), x)]);
        }
    }
}

/// With distinct starts, sorting gives strictly descending starts.
proof fn lemma_sorted_strict(s: Seq<ResolvedRedactionRule>)
    requires
        distinct_starts(s),
    ensures
        forall|i: int, j: int|
            0 <= i < j < sorted_by_start_desc(s).len() ==> (#[trigger] sorted_by_start_desc(s)[i]).pii_match.start
                > (#[trigger] sorted_by_start_desc(s)[j]).pii_match.start,
    decreases s.len(),
{
    broadcast use vstd::seq_lib::to_multiset_contains;

    if s.len() > 0 {
        let d = s.drop_last();
        let x = s.last();
        let t = sorted_by_start_desc(d);
        assert(distinct_starts(d)) by {
            assert forall|i: int, j: int| 0 <= i < j < d.len() implies (#[trigger] d[i]).pii_match.start
                != (#[trigger] d[j]).pii_match.start by {
                assert(d[i] == s[i] && d[j] == s[j]);
            }
        }
        lemma_sorted_strict(d);
        lemma_sorted_multiset(d);
        lemma_sorted_len(d);
        lemma_insert_pos_bounds(t, x);
        lemma_insert_pos_place(t, x);
        let p = insert_pos(t, x);
        let u = t.insert(p, x);
        assert(u == sorted_by_start_desc(s));
        // no rule of `t` starts where `x` does
        assert forall|k: int| 0 <= k < t.len() implies (#[trigger] t[k]).pii_match.start
            != x.pii_match.start by {
            assert(t.contains(t[k]));
            assert(t.to_multiset().count(t[k]) > 0);
            assert(d.contains(t[k]));
            let m = choose|m: int| 0 <= m < d.len() && d[m] == t[k];
            assert(s[m] == d[m]);
            assert(s[s.len() - 1] == x);
        }
        assert forall|i: int, j: int| 0 <= i < j < u.len() implies (#[trigger] u[i]).pii_match.start
            > (#[trigger] u[j]).pii_match.start by {
            if j < p {
                assert(u[i] == t[i] && u[j] == t[j]);
            } else if j == p {
                assert(u[j] == x && u[i] == t[i]);
            } else if i < p {
                assert(u[i] == t[i] && u[j] == t[j - 1]);
                assert(t[p].pii_match.start < x.pii_match.start);
                if j - 1 > p {
                    assert(t[p].pii_match.start > t[j - 1].pii_match.start);
                }
                assert(t[i].pii_match.start >= x.pii_match.start);
            } else if i == p {
                assert(u[i] == x && u[j] == t[j - 1]);
                if j - 1 > p {
                    assert(t[p].pii_match.start > t[j - 1].pii_match.start);
                }
            } else {
                assert(u[i] == t[i - 1] && u[j] == t[j - 1]);
            }
        }
    }
}

/// Two lists with strictly descending starts and the same rules are equal.
proof fn lemma_strict_unique(x: Seq<ResolvedRedactionRule>, y: Seq<ResolvedRedactionRule>)
    requires
        x.to_multiset() == y.to_multiset(),
        forall|i: int, j: int| 0 <= i < j < x.len() ==> (#[trigger] x[i]).pii_match.start > (#[trigger] x[j]).pii_match.start,
        forall|i: int, j: int| 0 <= i < j < y.len() ==> (#[trigger] y[i]).pii_match.start > (#[trigger] y[j]).pii_match.start,
    ensures
        x == y,
    decreases x.len(),
{
    broadcast use {vstd::seq_lib::to_multiset_contains, vstd::seq_lib::to_multiset_remove};

    vstd::seq_lib::to_multiset_len(x);
    vstd::seq_lib::to_multiset_len(y);
    assert(x.len() == y.len());
    if x.len() > 0 {
        assert(x.to_multiset().count(x[0]) > 0);
        assert(y.contains(x[0]));
        let i = choose|i: int| 0 <= i < y.len() && y[i] == x[0];
        assert(y.to_multiset().count(y[0]) > 0);
        assert(x.contains(y[0]));
        let k = choose|k: int| 0 <= k < x.len() && x[k] == y[0];
        if i > 0 {
            assert(y[0].pii_match.start > y[i].pii_match.start);
            if k > 0 {
                assert(x[0].pii_match.start > x[k].pii_match.start);
            }
        }
        assert(i == 0);
        assert(y[0] == x[0]);
        assert(x.remove(0) =~= x.drop_first());
        assert(y.remove(0) =~= y.drop_first());
        assert(x.drop_first().to_multiset() == y.drop_first().to_multiset());
        assert forall|a: int, b: int| 0 <= a < b < x.drop_first().len() implies (
        #[trigger] x.drop_first()[a]).pii_match.start > (#[trigger] x.drop_first()[b]).pii_match.start by {
            assert(x.drop_first()[a] == x[a + 1] && x.drop_first()[b] == x[b + 1]);
        }
        assert forall|a: int, b: int| 0 <= a < b < y.drop_first().len() implies (
        #[trigger] y.drop_first()[a]).pii_match.start > (#[trigger] y.drop_first()[b]).pii_match.start by {
            assert(y.drop_first()[a] == y[a + 1] && y.drop_first()[b] == y[b + 1]);
        }
        lemma_strict_unique(x.drop_first(), y.drop_first());
        assert(x =~= seq![x[0]] + x.drop_first());
        assert(y =~= seq![y[0]] + y.drop_first());
    }
}

/// Applying rules fails exactly when one of them uses the `Block` strategy,
/// whatever the text and the rules.
pub proof fn law_rules_fail_iff_block(text: Seq<char>, rules: Seq<ResolvedRedactionRule>)
    ensures
        apply_rules_spec(text, sorted_by_start_desc(rules)) is Err <==> some_block(rules),
{
    broadcast use vstd::seq_lib::to_multiset_contains;

    let t = sorted_by_start_desc(rules);
    lemma_spec_err_iff_block(text, t);
    lemma_sorted_multiset(rules);
    if some_block(rules) {
        let i = choose|i: int| 0 <= i < rules.len() && (#[trigger] rules[i]).strategy == RedactionStrategy::Block;
        assert(rules.contains(rules[i]));
        assert(t.to_multiset().count(rules[i]) > 0);
        assert(t.contains(rules[i]));
        let k = choose|k: int| 0 <= k < t.len() && t[k] == rules[i];
        assert(t[k].strategy == RedactionStrategy::Block);
    }
    if some_block(t) {
        let k = choose|k: int| 0 <= k < t.len() && (#[trigger] t[k]).strategy == RedactionStrategy::Block;
        assert(t.contains(t[k]));
        assert(rules.to_multiset().count(t[k]) > 0);
        assert(rules.contains(t[k]));
        let i = choose|i: int| 0 <= i < rules.len() && rules[i] == t[k];
        assert(rules[i].strategy == RedactionStrategy::Block);
    }
}

/// Rules that start at distinct offsets give the same outcome in any order:
/// the outcome depends on the rules, not on the order they are listed in.
pub proof fn law_rules_order_free(
    text: Seq<char>,
    a: Seq<ResolvedRedactionRule>,
    b: Seq<ResolvedRedactionRule>,
)
    requires
        a.to_multiset() == b.to_multiset(),
        distinct_starts(a),
        distinct_starts(b),
    ensures
        apply_rules_spec(text, sorted_by_start_desc(a)) == apply_rules_spec(text, sorted_by_start_desc(b)),
        rules_ok(text, sorted_by_start_desc(a)) == rules_ok(text, sorted_by_start_desc(b)),
{
    lemma_sorted_multiset(a);
    lemma_sorted_multiset(b);
    lemma_sorted_strict(a);
    lemma_sorted_strict(b);
    lemma_strict_unique(sorted_by_start_desc(a), sorted_by_start_desc(b));
}


// ---------------------------------------------------------------------------
// Rewriting spans that do not overlap
// ---------------------------------------------------------------------------

/// A rule as the byte range it rewrites and the text it puts there.
pub open spec fn piece_of(r: ResolvedRedactionRule) -> (int, int, Seq<char>) {
    (r.pii_match.start as int, r.pii_match.end as int, replacement(r.pii_match, r.strategy))
}

/// The pieces of a list of rules, in the same order.
pub open spec fn pieces_of(rules: Seq<ResolvedRedactionRule>) -> Seq<(int, int, Seq<char>)> {
    rules.map_values(|r: ResolvedRedactionRule| piece_of(r))
}

/// The text of bytes `b` up to `hi` with each piece's range replaced by its
/// text. Pieces are listed right to left: the first is the rightmost.
pub open spec fn spliced(b: Seq<u8>, ps: Seq<(int, int, Seq<char>)>, hi: int) -> Seq<char>
    decreases ps.len(),
{
    if ps.len() == 0 {
        decode_range(b, 0, hi)
    } else {
        spliced(b, ps.drop_first(), ps[0].0) + ps[0].2 + decode_range(b, ps[0].1, hi)
    }
}

/// Pieces listed right to left whose ranges lie on character boundaries of
/// `b` and do not overlap: each ends where or before every earlier-listed
/// piece starts.
pub open spec fn spaced(b: Seq<u8>, ps: Seq<(int, int, Seq<char>)>) -> bool {
    &&& forall|k: int|
        0 <= k < ps.len() ==> {
            &&& (#[trigger] ps[k]).0 <= ps[k].1
            &&& cut_point(b, ps[k].0)
            &&& cut_point(b, ps[k].1)
        }
    &&& forall|i: int, j: int| 0 <= i < j < ps.len() ==> (#[trigger] ps[j]).1 <= (#[trigger] ps[i]).0
}

/// Splicing reads the bytes below the last piece's end only up to `hi`: two
/// byte sequences that agree below `h` splice alike.
proof fn lemma_spliced_prefix(b: Seq<u8>, b1: Seq<u8>, ps: Seq<(int, int, Seq<char>)>, hi: int, h: int)
    requires
        0 <= hi <= h,
        h <= b.len(),
        h <= b1.len(),
        forall|i: int| 0 <= i < h ==> b1[i] == b[i],
        forall|k: int| 0 <= k < ps.len() ==> 0 <= (#[trigger] ps[k]).0 <= ps[k].1 <= hi,
        forall|i: int, j: int| 0 <= i < j < ps.len() ==> (#[trigger] ps[j]).1 <= (#[trigger] ps[i]).0,
    ensures
        spliced(b1, ps, hi) == spliced(b, ps, hi),
    decreases ps.len(),
{
    if ps.len() == 0 {
        assert(b1.subrange(0, hi) =~= b.subrange(0, hi));
    } else {
        let rest = ps.drop_first();
        assert forall|k: int| 0 <= k < rest.len() implies 0 <= (#[trigger] rest[k]).0 <= rest[k].1
            <= ps[0].0 by {
            assert(rest[k] == ps[k + 1]);
        }
        assert forall|i: int, j: int| 0 <= i < j < rest.len() implies (#[trigger] rest[j]).1 <= (
        #[trigger] rest[i]).0 by {
            assert(rest[i] == ps[i + 1] && rest[j] == ps[j + 1]);
        }
        lemma_spliced_prefix(b, b1, rest, ps[0].0, h);
        assert(b1.subrange(ps[0].1, hi) =~= b.subrange(ps[0].1, hi));
    }
}

/// Applying rules in turn whose pieces are spaced: every step can be carried
/// out, and unless a rule blocks, the outcome is the text with each rule's
/// range replaced by its text and everything outside the ranges kept in
/// order.
pub proof fn lemma_apply_spaced(text: Seq<char>, rules: Seq<ResolvedRedactionRule>)
    requires
        spaced(encode_utf8(text), pieces_of(rules)),
    ensures
        rules_ok(text, rules),
        !some_block(rules) ==> apply_rules_spec(text, rules) == Ok::<Seq<char>, Seq<char>>(
            spliced(encode_utf8(text), pieces_of(rules), encode_utf8(text).len() as int),
        ),
    decreases rules.len(),
{
    let b = encode_utf8(text);
    let ps = pieces_of(rules);
    if rules.len() == 0 {
        assert(b.subrange(0, b.len() as int) =~= b);
    } else {
        let r0 = rules[0];
        assert(ps[0] == piece_of(r0));
        if r0.strategy != RedactionStrategy::Block {
            let s = r0.pii_match.start as int;
            let e = r0.pii_match.end as int;
            let rep = replacement(r0.pii_match, r0.strategy);
            let rest = rules.drop_first();
            let prest = pieces_of(rest);
            assert(prest =~= ps.drop_first());
            assert forall|k: int| 0 <= k < prest.len() implies #[trigger] prest[k] == ps[k + 1] by {}
            let a = if rest.len() == 0 {
                0
            } else {
                prest[0].1
            };
            assert(cut_point(b, a)) by {
                if rest.len() == 0 {
                    lemma_cut_point_start(b);
                }
            }
            assert(a <= s) by {
                if rest.len() > 0 {
                    assert(ps[1].1 <= ps[0].0);
                }
            }
            lemma_rewrite_bytes(b, a, s, e, rep);
            let t1 = decode_range(b, 0, s) + rep + decode_range(b, e, b.len() as int);
            let b1 = encode_utf8(t1);
            assert(step_result(text, r0.pii_match, r0.strategy) == Ok::<Seq<char>, Seq<char>>(t1));
            // the remaining pieces lie below `s`, where nothing changed
            assert forall|k: int| 0 <= k < prest.len() implies (#[trigger] prest[k]).1 <= s by {
                assert(ps[k + 1].1 <= ps[0].0);
            }
            assert forall|k: int| 0 <= k < prest.len() implies {
                &&& (#[trigger] prest[k]).0 <= prest[k].1
                &&& cut_point(b1, prest[k].0)
                &&& cut_point(b1, prest[k].1)
            } by {
                assert(cut_point(b, ps[k + 1].0) && cut_point(b, ps[k + 1].1));
                let x = prest[k].0;
                let y = prest[k].1;
                if x < s {
                    assert(b1[x] == b[x]);
                }
                if y < s {
                    assert(b1[y] == b[y]);
                }
            }
            assert forall|i: int, j: int| 0 <= i < j < prest.len() implies (#[trigger] prest[j]).1 <= (
            #[trigger] prest[i]).0 by {
                assert(ps[j + 1].1 <= ps[i + 1].0);
            }
            lemma_apply_spaced(t1, rest);
            if !some_block(rules) {
                assert(!some_block(rest)) by {
                    if some_block(rest) {
                        let i = choose|i: int|
                            0 <= i < rest.len() && (#[trigger] rest[i]).strategy == RedactionStrategy::Block;
                        assert(rules[i + 1] == rest[i]);
                    }
                }
                let n1 = b1.len() as int;
                let n = b.len() as int;
                assert(apply_rules_spec(text, rules) == apply_rules_spec(t1, rest));
                assert(ps.drop_first() == prest);
                assert(spliced(b, ps, n) == spliced(b, prest, s) + rep + decode_range(b, e, n));
                if rest.len() == 0 {
                    assert(spliced(b1, prest, n1) == decode_range(b1, 0, n1));
                    assert(spliced(b, prest, s) == decode_range(b, 0, s));
                    assert(spliced(b1, prest, n1) =~= spliced(b, ps, n));
                } else {
                    let inner = prest.drop_first();
                    assert forall|k: int| 0 <= k < inner.len() implies 0 <= (#[trigger] inner[k]).0
                        <= inner[k].1 <= prest[0].0 by {
                        assert(inner[k] == ps[k + 2]);
                        assert(ps[k + 2].1 <= ps[1].0);
                        assert(cut_point(b, ps[k + 2].0));
                    }
                    assert forall|i: int, j: int| 0 <= i < j < inner.len() implies (
                    #[trigger] inner[j]).1 <= (#[trigger] inner[i]).0 by {
                        assert(inner[i] == ps[i + 2] && inner[j] == ps[j + 2]);
                    }
                    assert(cut_point(b, ps[1].0));
                    lemma_spliced_prefix(b, b1, inner, prest[0].0, s);
                    let p0 = prest[0];
                    assert(spliced(b1, prest, n1) == spliced(b1, inner, p0.0) + p0.2 + decode_range(
                        b1,
                        p0.1,
                        n1,
                    ));
                    assert(spliced(b, prest, s) == spliced(b, inner, p0.0) + p0.2 + decode_range(
                        b,
                        p0.1,
                        s,
                    ));
                    assert(spliced(b1, prest, n1) =~= spliced(b, ps, n));
                }
            }
        }
    }
}

/// Every rule's span is non-empty and lies on character boundaries of `b`.
pub open spec fn spans_on_boundaries(b: Seq<u8>, rules: Seq<ResolvedRedactionRule>) -> bool {
    forall|k: int|
        0 <= k < rules.len() ==> {
            &&& (#[trigger] rules[k]).pii_match.start < rules[k].pii_match.end
            &&& cut_point(b, rules[k].pii_match.start as int)
            &&& cut_point(b, rules[k].pii_match.end as int)
        }
}

/// No two rules' spans overlap.
pub open spec fn spans_apart(rules: Seq<ResolvedRedactionRule>) -> bool {
    forall|i: int, j: int|
        0 <= i < j < rules.len() ==> (#[trigger] rules[i]).pii_match.end <= (
        #[trigger] rules[j]).pii_match.start || rules[j].pii_match.end <= rules[i].pii_match.start
}

/// A rule listed at two positions occurs at least twice.
proof fn lemma_count_two(s: Seq<ResolvedRedactionRule>, i: int, j: int)
    requires
        0 <= i < j < s.len(),
        s[i] == s[j],
    ensures
        s.to_multiset().count(s[i]) >= 2,
{
    broadcast use vstd::seq_lib::to_multiset_contains;

    let p = s.subrange(0, j);
    let q = s.subrange(j, s.len() as int);
    assert(s =~= p + q);
    vstd::seq_lib::lemma_multiset_commutative(p, q);
    assert(p[i] == s[i] && p.contains(s[i]));
    assert(q[0] == s[j] && q.contains(s[i]));
}

/// Rules with distinct starts occur at most once each.
proof fn lemma_distinct_count(s: Seq<ResolvedRedactionRule>)
    requires
        distinct_starts(s),
    ensures
        forall|x: ResolvedRedactionRule| #[trigger] s.to_multiset().count(x) <= 1,
    decreases s.len(),
{
    broadcast use vstd::seq_lib::to_multiset_contains;

    if s.len() == 0 {
        assert(s.to_multiset() =~= vstd::multiset::Multiset::empty());
    } else {
        let d = s.drop_last();
        assert(distinct_starts(d)) by {
            assert forall|i: int, j: int| 0 <= i < j < d.len() implies (#[trigger] d[i]).pii_match.start
                != (#[trigger] d[j]).pii_match.start by {
                assert(d[i] == s[i] && d[j] == s[j]);
            }
        }
        lemma_distinct_count(d);
        assert(s =~= d.push(s.last()));
        vstd::seq_lib::to_multiset_build(d, s.last());
        assert(!d.contains(s.last())) by {
            if d.contains(s.last()) {
                let k = choose|k: int| 0 <= k < d.len() && d[k] == s.last();
                assert(s[k] == d[k]);
                assert(s[k].pii_match.start != s[s.len() - 1].pii_match.start);
            }
        }
    }
}

/// Rules whose non-empty spans lie on character boundaries and do not
/// overlap can always be applied; they fail exactly when one of them blocks;
/// otherwise each span is replaced by its rule's text and the text outside
/// the spans is kept in order; and listing the same rules in another order
/// gives the same outcome.
pub proof fn law_disjoint_rules_apply(
    text: Seq<char>,
    rules: Seq<ResolvedRedactionRule>,
    other: Seq<ResolvedRedactionRule>,
)
    requires
        spans_on_boundaries(encode_utf8(text), rules),
        spans_apart(rules),
        other.to_multiset() == rules.to_multiset(),
    ensures
        rules_ok(text, sorted_by_start_desc(rules)),
        apply_rules_spec(text, sorted_by_start_desc(rules)) is Err <==> some_block(rules),
        !some_block(rules) ==> apply_rules_spec(text, sorted_by_start_desc(rules)) == Ok::<
            Seq<char>,
            Seq<char>,
        >(
            spliced(
                encode_utf8(text),
                pieces_of(sorted_by_start_desc(rules)),
                encode_utf8(text).len() as int,
            ),
        ),
        apply_rules_spec(text, sorted_by_start_desc(other)) == apply_rules_spec(
            text,
            sorted_by_start_desc(rules),
        ),
{
    broadcast use vstd::seq_lib::to_multiset_contains;

    let b = encode_utf8(text);
    let u = sorted_by_start_desc(rules);
    assert(distinct_starts(rules)) by {
        assert forall|i: int, j: int| 0 <= i < j < rules.len() implies (#[trigger] rules[i]).pii_match.start
            != (#[trigger] rules[j]).pii_match.start by {}
    }
    assert(distinct_starts(other)) by {
        lemma_distinct_count(rules);
        assert forall|i: int, j: int| 0 <= i < j < other.len() implies (#[trigger] other[i]).pii_match.start
            != (#[trigger] other[j]).pii_match.start by {
            if other[i] == other[j] {
                lemma_count_two(other, i, j);
                assert(rules.to_multiset().count(other[i]) <= 1);
            } else {
                assert(other.contains(other[i]) && other.contains(other[j]));
                assert(rules.to_multiset().count(other[i]) > 0);
                assert(rules.to_multiset().count(other[j]) > 0);
                let a = choose|a: int| 0 <= a < rules.len() && rules[a] == other[i];
                let c = choose|c: int| 0 <= c < rules.len() && rules[c] == other[j];
                assert(a != c);
                if a < c {
                    assert(rules[a].pii_match.end <= rules[c].pii_match.start
                        || rules[c].pii_match.end <= rules[a].pii_match.start);
                } else {
                    assert(rules[c].pii_match.end <= rules[a].pii_match.start
                        || rules[a].pii_match.end <= rules[c].pii_match.start);
                }
            }
        }
    }
    law_rules_order_free(text, other, rules);
    law_rules_fail_iff_block(text, rules);
    lemma_sorted_multiset(rules);
    lemma_sorted_strict(rules);
    lemma_sorted_len(rules);
    let ps = pieces_of(u);
    assert forall|i: int| 0 <= i < u.len() implies exists|a: int|
        0 <= a < rules.len() && rules[a] == #[trigger] u[i] by {
        assert(u.contains(u[i]));
        assert(rules.to_multiset().count(u[i]) > 0);
    }
    assert forall|k: int| 0 <= k < ps.len() implies {
        &&& (#[trigger] ps[k]).0 <= ps[k].1
        &&& cut_point(b, ps[k].0)
        &&& cut_point(b, ps[k].1)
    } by {
        let a = choose|a: int| 0 <= a < rules.len() && rules[a] == u[k];
        assert(ps[k] == piece_of(u[k]));
    }
    assert forall|i: int, j: int| 0 <= i < j < ps.len() implies (#[trigger] ps[j]).1 <= (#[trigger] ps[i]).0 by {
        let a = choose|a: int| 0 <= a < rules.len() && rules[a] == u[i];
        let c = choose|c: int| 0 <= c < rules.len() && rules[c] == u[j];
        assert(ps[i] == piece_of(u[i]) && ps[j] == piece_of(u[j]));
        assert(u[i].pii_match.start > u[j].pii_match.start);
        assert(a != c);
        if a < c {
            assert(rules[a].pii_match.end <= rules[c].pii_match.start
                || rules[c].pii_match.end <= rules[a].pii_match.start);
        } else {
            assert(rules[c].pii_match.end <= rules[a].pii_match.start
                || rules[a].pii_match.end <= rules[c].pii_match.start);
        }
    }
    lemma_apply_spaced(text, u);
}


/// Turning matches into rules with one strategy keeps their multiplicities.
proof fn lemma_rules_for_perm(a: Seq<PIIMatch>, b: Seq<PIIMatch>, strategy: RedactionStrategy)
    requires
        a.to_multiset() == b.to_multiset(),
    ensures
        rules_for(a, strategy).to_multiset() == rules_for(b, strategy).to_multiset(),
    decreases a.len(),
{
    broadcast use vstd::seq_lib::to_multiset_contains;

    vstd::seq_lib::to_multiset_len(a);
    vstd::seq_lib::to_multiset_len(b);
    if a.len() == 0 {
        assert(rules_for(a, strategy) =~= seq![]);
        assert(rules_for(b, strategy) =~= seq![]);
    } else {
        let x = a.last();
        let d = a.drop_last();
        assert(a =~= d.push(x));
        vstd::seq_lib::to_multiset_build(d, x);
        assert(a.to_multiset().count(x) > 0);
        assert(b.contains(x));
        let k = choose|k: int| 0 <= k < b.len() && b[k] == x;
        let e = b.remove(k);
        assert(b =~= e.insert(k, x));
        vstd::seq_lib::to_multiset_insert(e, k, x);
        assert(d.to_multiset() =~= e.to_multiset()) by {
            broadcast use vstd::multiset::group_multiset_axioms;

            assert(d.to_multiset().insert(x) == e.to_multiset().insert(x));
            assert forall|y: PIIMatch| #[trigger] d.to_multiset().count(y) == e.to_multiset().count(y) by {
                assert(d.to_multiset().insert(x).count(y) == e.to_multiset().insert(x).count(y));
            }
        }
        lemma_rules_for_perm(d, e, strategy);
        let rx = ResolvedRedactionRule { pii_match: x, strategy };
        assert(rules_for(a, strategy) =~= rules_for(d, strategy).push(rx));
        assert(rules_for(b, strategy) =~= rules_for(e, strategy).insert(k, rx));
        vstd::seq_lib::to_multiset_build(rules_for(d, strategy), rx);
        vstd::seq_lib::to_multiset_insert(rules_for(e, strategy), k, rx);
    }
}

/// Applying one strategy to matches is applying one rule per match: with no
/// matches the text comes back unchanged; for non-empty matches on character
/// boundaries that do not overlap, the rules can always be applied, the
/// outcome is each match's range rewritten with everything outside kept in
/// order (unless the strategy blocks), and the matches may come in any order.
pub proof fn law_apply_matches(
    text: Seq<char>,
    matches: Seq<PIIMatch>,
    other: Seq<PIIMatch>,
    strategy: RedactionStrategy,
)
    requires
        other.to_multiset() == matches.to_multiset(),
        spans_on_boundaries(encode_utf8(text), rules_for(matches, strategy)),
        spans_apart(rules_for(matches, strategy)),
    ensures
        matches.len() == 0 ==> apply_rules_spec(text, sorted_by_start_desc(rules_for(matches, strategy)))
            == Ok::<Seq<char>, Seq<char>>(text),
        rules_ok(text, sorted_by_start_desc(rules_for(matches, strategy))),
        strategy == RedactionStrategy::Block && matches.len() > 0 ==> apply_rules_spec(
            text,
            sorted_by_start_desc(rules_for(matches, strategy)),
        ) is Err,
        strategy != RedactionStrategy::Block ==> apply_rules_spec(
            text,
            sorted_by_start_desc(rules_for(matches, strategy)),
        ) == Ok::<Seq<char>, Seq<char>>(
            spliced(
                encode_utf8(text),
                pieces_of(sorted_by_start_desc(rules_for(matches, strategy))),
                encode_utf8(text).len() as int,
            ),
        ),
        apply_rules_spec(text, sorted_by_start_desc(rules_for(other, strategy))) == apply_rules_spec(
            text,
            sorted_by_start_desc(rules_for(matches, strategy)),
        ),
{
    let rules = rules_for(matches, strategy);
    lemma_rules_for_perm(other, matches, strategy);
    law_disjoint_rules_apply(text, rules, rules_for(other, strategy));
    if matches.len() == 0 {
        assert(rules =~= seq![]);
        assert(sorted_by_start_desc(rules) =~= seq![]);
    }
    if strategy == RedactionStrategy::Block && matches.len() > 0 {
        assert(rules[0].strategy == RedactionStrategy::Block);
    }
    if strategy != RedactionStrategy::Block {
        assert(!some_block(rules)) by {
            if some_block(rules) {
                let i = choose|i: int| 0 <= i < rules.len() && (#[trigger] rules[i]).strategy
                    == RedactionStrategy::Block;
            }
        }
    }
}

// ---------------------------------------------------------------------------
// Laws of the replacement texts
// ---------------------------------------------------------------------------

proof fn lemma_first_index_bounds(v: Seq<char>, c: char)
    ensures
        -1 <= first_index(v, c) < v.len(),
    decreases v.len(),
{
    if v.len() > 0 {
        lemma_first_index_bounds(v.drop_first(), c);
    }
}

proof fn lemma_last_index_bounds(v: Seq<char>, c: char)
    ensures
        -1 <= last_index(v, c) < v.len(),
    decreases v.len(),
{
    if v.len() > 0 {
        lemma_last_index_bounds(v.drop_last(), c);
    }
}

/// Masking keeps the length of the matched text, except for card numbers and
/// IP addresses, whose masks have a fixed shape.
pub proof fn law_mask_keeps_length(pii_type: Seq<char>, value: Seq<char>)
    requires
        pii_type != "credit_card"@,
        pii_type != "ip"@,
    ensures
        mask_by_type_spec(pii_type, value).len() == value.len(),
{
    if pii_type == "email"@ {
        lemma_first_index_bounds(value, '@');
        let at = first_index(value, '@');
        if at >= 0 {
            let domain = value.subrange(at + 1, value.len() as int);
            lemma_last_index_bounds(domain, '.');
        }
    }
}

/// Lower-case hexadecimal digit, as a character.
pub open spec fn is_lower_hex_char(c: char) -> bool {
    ('0' <= c && c <= '9') || ('a' <= c && c <= 'f')
}

/// Exactly `n` lower-case hexadecimal digits.
proof fn lemma_hex_digits(v: nat, n: nat)
    ensures
        hex_digits(v, n).len() == n,
        forall|i: int| 0 <= i < n ==> is_lower_hex_char(#[trigger] hex_digits(v, n)[i]),
    decreases n,
{
    if n > 0 {
        lemma_hex_digits(v / 16, (n - 1) as nat);
        let d = (v % 16) as int;
        assert(0 <= d < 16);
        assert(is_lower_hex_char(hex_char(d)));
        let h = hex_digits(v, n);
        assert forall|i: int| 0 <= i < n implies is_lower_hex_char(#[trigger] h[i]) by {
            if i < n - 1 {
                assert(h[i] == hex_digits(v / 16, (n - 1) as nat)[i]);
            }
        }
    }
}

/// The hash of a matched text is `[HASH:`, sixteen lower-case hexadecimal
/// digits, and `]`.
pub proof fn law_hash_shape(pii_type: Seq<char>, value: Seq<char>)
    ensures
        ({
            let r = replacement_text(pii_type, value, RedactionStrategy::Hash);
            &&& r.len() == 23
            &&& r.subrange(0, 6) == "[HASH:"@
            &&& r[22] == ']'
            &&& forall|i: int| 6 <= i < 22 ==> is_lower_hex_char(#[trigger] r[i])
        }),
{
    reveal_strlit("[HASH:");
    reveal_strlit("]");
    let h = hex_digits(djb2(encode_utf8(value)) as nat, 16);
    lemma_hex_digits(djb2(encode_utf8(value)) as nat, 16);
    let r = replacement_text(pii_type, value, RedactionStrategy::Hash);
    assert(r == "[HASH:"@ + h + "]"@);
    assert(r.subrange(0, 6) =~= "[HASH:"@);
    assert forall|i: int| 6 <= i < 22 implies is_lower_hex_char(#[trigger] r[i]) by {
        assert(r[i] == h[i - 6]);
    }
}

} // verus!
