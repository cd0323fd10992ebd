//! Character- and byte-level text helpers shared by the rest of the library.
//!
//! Text is modelled by its characters (`s@`) and, where byte offsets matter,
//! by its UTF-8 encoding (`s.spec_bytes()`).

use vstd::prelude::*;
use vstd::string::*;
use vstd::utf8::*;

verus! {

broadcast use vstd::utf8::group_utf8_lib;

/// Appends one character to a string.
///
/// Calls `String::push`; the contract claims that the string's characters
/// grow by exactly that character.
#[verifier::external_body]
pub(crate) fn push_char(s: &mut String, c: char)
    ensures
        final(s)@ == old(s)@.push(c),
{
    s.push(c);
}

/// The characters of `s`, in order.
pub fn chars_of(s: &str) -> (v: Vec<char>)
    ensures
        v@ == s@,
{
    let n = s.unicode_len();
    let mut out: Vec<char> = Vec::new();
    let mut i: usize = 0;
    while i < n
        invariant
            n == s@.len(),
            i <= n,
            out@ == s@.subrange(0, i as int),
        decreases n - i,
    {
        out.push(s.get_char(i));
        i = i + 1;
    }
    out
}

/// A string holding exactly the given characters.
pub fn string_of_chars(v: &Vec<char>) -> (s: String)
    ensures
        s@ == v@,
{
    let mut out = String::new();
    let mut i: usize = 0;
    while i < v.len()
        invariant
            i <= v.len(),
            out@ == v@.subrange(0, i as int),
        decreases v.len() - i,
    {
        push_char(&mut out, v[i]);
        i = i + 1;
    }
    out
}

/// A string holding the characters `v[lo..hi)`.
pub fn char_range(v: &Vec<char>, lo: usize, hi: usize) -> (s: String)
    requires
        lo <= hi <= v@.len(),
    ensures
        s@ == v@.subrange(lo as int, hi as int),
{
    let mut out = String::new();
    let mut i: usize = lo;
    while i < hi
        invariant
            lo <= i <= hi <= v@.len(),
            out@ == v@.subrange(lo as int, i as int),
        decreases hi - i,
    {
        push_char(&mut out, v[i]);
        i = i + 1;
    }
    out
}

/// Appends `t` to `s`.
pub fn push_string(s: &mut String, t: &String)
    ensures
        final(s)@ == old(s)@ + t@,
{
    s.append(t.as_str());
}

/// Appends the characters in `v` to `s`.
pub fn push_chars(s: &mut String, v: &Vec<char>)
    ensures
        final(s)@ == old(s)@ + v@,
{
    let ghost s0 = s@;
    let mut i: usize = 0;
    while i < v.len()
        invariant
            i <= v.len(),
            s@ == s0 + v@.subrange(0, i as int),
        decreases v.len() - i,
    {
        push_char(s, v[i]);
        i = i + 1;
    }
    assert(v@.subrange(0, v.len() as int) =~= v@);
}

/// What `str::to_uppercase` returns for the given characters.
pub uninterp spec fn uppercase_of(s: Seq<char>) -> Seq<char>;

/// Upper-cases a string.
///
/// Calls `str::to_uppercase`. The contract names the result as a function of
/// the input characters and states the all-ASCII case, where the Unicode
/// mapping turns `a`..`z` into `A`..`Z` one for one and keeps every other
/// ASCII character; the rest of the Unicode mapping is not restated.
#[verifier::external_body]
pub(crate) fn to_uppercase(s: &str) -> (r: String)
    ensures
        r@ == uppercase_of(s@),
        is_ascii_text(s@) ==> r@ == s@.map_values(|c: char| ascii_upper(c)),
{
    s.to_uppercase()
}

/// Every character is ASCII.
pub open spec fn is_ascii_text(s: Seq<char>) -> bool {
    forall|i: int| 0 <= i < s.len() ==> (#[trigger] s[i] as u32) < 128
}

/// An ASCII lower-case letter turned upper-case; any other character kept.
pub open spec fn ascii_upper(c: char) -> char {
    if 'a' <= c && c <= 'z' { ((c as u32) - 32) as char } else { c }
}

/// An ASCII upper-case letter turned lower-case; any other character kept.
pub open spec fn ascii_lower(c: char) -> char {
    if 'A' <= c && c <= 'Z' { ((c as u32) + 32) as char } else { c }
}

/// What `char::is_alphanumeric` answers for a character.
pub uninterp spec fn char_is_alphanumeric(c: char) -> bool;

/// Whether a character is alphabetic or numeric in the Unicode sense.
///
/// Calls `char::is_alphanumeric`; the contract names the answer and states the
/// ASCII case, where the documentation lists exactly the letters and digits.
#[verifier::external_body]
pub(crate) fn is_alphanumeric(c: char) -> (r: bool)
    ensures
        r == char_is_alphanumeric(c),
        (c as u32) < 128 ==> (r <==> is_ascii_alnum_char(c)),
{
    c.is_alphanumeric()
}

/// ASCII letters and digits, as characters.
pub open spec fn is_ascii_alnum_char(c: char) -> bool {
    ('a' <= c && c <= 'z') || ('A' <= c && c <= 'Z') || ('0' <= c && c <= '9')
}

/// ASCII decimal digit, as a byte.
pub open spec fn is_digit_byte(b: u8) -> bool {
    0x30 <= b && b <= 0x39
}

/// ASCII letter or digit, as a byte.
pub open spec fn is_alnum_byte(b: u8) -> bool {
    is_digit_byte(b) || (0x41 <= b && b <= 0x5a) || (0x61 <= b && b <= 0x7a)
}

/// ASCII hexadecimal digit, as a byte.
pub open spec fn is_hex_byte(b: u8) -> bool {
    is_digit_byte(b) || (0x41 <= b && b <= 0x46) || (0x61 <= b && b <= 0x66)
}

/// Same as `u8::is_ascii_digit`.
pub fn ascii_digit(b: u8) -> (r: bool)
    ensures
        r == is_digit_byte(b),
{
    0x30 <= b && b <= 0x39
}

/// Same as `u8::is_ascii_alphanumeric`.
pub fn ascii_alnum(b: u8) -> (r: bool)
    ensures
        r == is_alnum_byte(b),
{
    (0x30 <= b && b <= 0x39) || (0x41 <= b && b <= 0x5a) || (0x61 <= b && b <= 0x7a)
}

/// Same as `u8::is_ascii_hexdigit`.
pub fn ascii_hex(b: u8) -> (r: bool)
    ensures
        r == is_hex_byte(b),
{
    (0x30 <= b && b <= 0x39) || (0x41 <= b && b <= 0x46) || (0x61 <= b && b <= 0x66)
}

/// The characters encoded by the bytes `b[start..end]`.
pub open spec fn decode_range(b: Seq<u8>, start: int, end: int) -> Seq<char> {
    decode_utf8(b.subrange(start, end))
}

/// Whether byte offset `k` of a UTF-8 text may start or end a slice: the end
/// of the text, or a byte that does not continue a multi-byte character.
pub open spec fn cut_point(b: Seq<u8>, k: int) -> bool {
    0 <= k <= b.len() && (k == b.len() || !is_continuation_byte(b[k]))
}

/// In valid UTF-8, the byte after an ASCII byte never continues a character.
pub proof fn lemma_after_ascii(b: Seq<u8>, k: int)
    requires
        valid_utf8(b),
        0 < k < b.len(),
        b[k - 1] <= 0x7f,
    ensures
        !is_continuation_byte(b[k]),
    decreases b.len(),
{
    let len1 = length_of_first_scalar(b);
    let tail = pop_first_scalar(b);
    assert(valid_first_scalar(b) && valid_utf8(tail));
    assert(tail.len() == b.len() - len1);
    if k - 1 < len1 {
        if k - 1 == 0 {
            assert(len1 == 1);
            assert(tail[0] == b[k]);
            assert(valid_first_scalar(tail));
        } else {
            assert(is_continuation_byte(b[k - 1]));
        }
    } else {
        assert(tail[k - len1 - 1] == b[k - 1]);
        assert(tail[k - len1] == b[k]);
        lemma_after_ascii(tail, k - len1);
    }
}

/// The start and the end of a text are cut points.
pub proof fn lemma_text_ends(s: &str)
    ensures
        cut_point(s.spec_bytes(), 0),
        cut_point(s.spec_bytes(), s.spec_bytes().len() as int),
{
    let b = s.spec_bytes();
    is_char_boundary_start_end_of_seq(b);
    if b.len() > 0 {
        is_char_boundary_iff_not_is_continuation_byte(b, 0);
    }
}

/// A cut point of valid UTF-8 is a character boundary.
pub proof fn lemma_cut_point_boundary(b: Seq<u8>, k: int)
    requires
        valid_utf8(b),
        cut_point(b, k),
    ensures
        is_char_boundary(b, k),
{
    is_char_boundary_start_end_of_seq(b);
    if k < b.len() {
        is_char_boundary_iff_not_is_continuation_byte(b, k);
    }
}

/// Encoding a concatenation encodes each part in turn.
pub proof fn lemma_encode_concat(x: Seq<char>, y: Seq<char>)
    ensures
        encode_utf8(x + y) == encode_utf8(x) + encode_utf8(y),
    decreases x.len(),
{
    if x.len() == 0 {
        assert(x + y =~= y);
        assert(encode_utf8(x) + encode_utf8(y) =~= encode_utf8(y));
    } else {
        assert((x + y).drop_first() =~= x.drop_first() + y);
        assert((x + y)[0] == x[0]);
        lemma_encode_concat(x.drop_first(), y);
        assert(encode_utf8(x + y) =~= encode_utf8(x) + encode_utf8(y));
    }
}

/// Offset 0 is a cut point of valid UTF-8.
pub proof fn lemma_cut_point_start(b: Seq<u8>)
    requires
        valid_utf8(b),
    ensures
        cut_point(b, 0),
{
    if b.len() > 0 {
        is_char_boundary_start_end_of_seq(b);
        is_char_boundary_iff_not_is_continuation_byte(b, 0);
    }
}

/// The bytes between two cut points of valid UTF-8 are valid, and encoding
/// the characters they hold gives them back.
pub proof fn lemma_piece_bytes(b: Seq<u8>, a: int, c: int)
    requires
        valid_utf8(b),
        a <= c,
        cut_point(b, a),
        cut_point(b, c),
    ensures
        valid_utf8(b.subrange(a, c)),
        encode_utf8(decode_range(b, a, c)) == b.subrange(a, c),
{
    lemma_cut_point_boundary(b, c);
    valid_utf8_split(b, c);
    let p = b.subrange(0, c);
    assert(cut_point(p, a)) by {
        if a < c {
            assert(p[a] == b[a]);
        }
    }
    lemma_cut_point_boundary(p, a);
    valid_utf8_split(p, a);
    assert(p.subrange(a, p.len() as int) =~= b.subrange(a, c));
    decode_utf8_encode_utf8(b.subrange(a, c));
}

/// Rewriting bytes `s..e` of valid UTF-8 `b` with the characters `r`: the
/// bytes before `s` stay, `s` is still a cut point, and the text from an
/// earlier cut point `a` on is the old text up to `s`, then `r`, then the old
/// text from `e` on.
pub proof fn lemma_rewrite_bytes(b: Seq<u8>, a: int, s: int, e: int, r: Seq<char>)
    requires
        valid_utf8(b),
        a <= s <= e,
        cut_point(b, a),
        cut_point(b, s),
        cut_point(b, e),
    ensures
        ({
            let b1 = encode_utf8(decode_range(b, 0, s) + r + decode_range(b, e, b.len() as int));
            &&& s <= b1.len()
            &&& forall|i: int| 0 <= i < s ==> b1[i] == b[i]
            &&& cut_point(b1, s)
            &&& decode_range(b1, a, b1.len() as int) == decode_range(b, a, s) + r + decode_range(
                b,
                e,
                b.len() as int,
            )
        }),
{
    let n = b.len() as int;
    let p = decode_range(b, 0, s);
    let q = decode_range(b, e, n);
    let x = decode_range(b, a, s);
    lemma_cut_point_start(b);
    lemma_piece_bytes(b, 0, s);
    lemma_piece_bytes(b, e, n);
    lemma_piece_bytes(b, a, s);
    lemma_encode_concat(p, r);
    lemma_encode_concat(p + r, q);
    let b1 = encode_utf8(p + r + q);
    assert(b1 =~= b.subrange(0, s) + encode_utf8(r) + b.subrange(e, n));
    lemma_encode_concat(x, r);
    lemma_encode_concat(x + r, q);
    assert(b1.subrange(a, b1.len() as int) =~= encode_utf8(x + r + q));
    encode_utf8_decode_utf8(x + r + q);
    if s < b1.len() {
        let z = r + q;
        lemma_encode_concat(r, q);
        let zb = encode_utf8(z);
        assert(zb =~= encode_utf8(r) + b.subrange(e, n));
        encode_utf8_valid_utf8(z);
        assert(b1[s] == zb[0]);
        is_char_boundary_iff_not_is_continuation_byte(zb, 0);
    }
}

/// The characters of `text` whose UTF-8 encoding occupies bytes `start..end`.
pub fn byte_slice(text: &str, start: usize, end: usize) -> (r: String)
    requires
        start <= end,
        cut_point(text.spec_bytes(), start as int),
        cut_point(text.spec_bytes(), end as int),
    ensures
        r@ == decode_range(text.spec_bytes(), start as int, end as int),
{
    let ghost b = text.spec_bytes();
    proof {
        lemma_cut_point_boundary(b, start as int);
    }
    let (_, rest) = text.split_at(start);
    let ghost c = rest.spec_bytes();
    proof {
        valid_utf8_split(b, start as int);
        assert(c =~= b.subrange(start as int, b.len() as int));
        assert(cut_point(c, end - start)) by {
            if end < b.len() {
                assert(c[end - start] == b[end as int]);
            }
        }
        lemma_cut_point_boundary(c, end - start);
    }
    let (mid, _) = rest.split_at(end - start);
    proof {
        assert(mid.spec_bytes() =~= b.subrange(start as int, end as int));
    }
    mid.to_owned()
}

/// The characters of `text` before byte offset `k`.
pub fn byte_prefix(text: &str, k: usize) -> (r: &str)
    requires
        cut_point(text.spec_bytes(), k as int),
    ensures
        r@ == decode_range(text.spec_bytes(), 0, k as int),
{
    proof {
        lemma_cut_point_boundary(text.spec_bytes(), k as int);
    }
    let (p, _) = text.split_at(k);
    p
}

/// The characters of `text` from byte offset `k` on.
pub fn byte_suffix(text: &str, k: usize) -> (r: &str)
    requires
        cut_point(text.spec_bytes(), k as int),
    ensures
        r@ == decode_range(text.spec_bytes(), k as int, text.spec_bytes().len() as int),
{
    proof {
        lemma_cut_point_boundary(text.spec_bytes(), k as int);
    }
    let (_, s) = text.split_at(k);
    s
}


/// Whether two character sequences are equal.
pub fn chars_eq(a: &Vec<char>, b: &Vec<char>) -> (r: bool)
    ensures
        r == (a@ == b@),
{
    if a.len() != b.len() {
        return false;
    }
    let mut i: usize = 0;
    while i < a.len()
        invariant
            a@.len() == b@.len(),
            i <= a@.len(),
            forall|k: int| 0 <= k < i ==> a@[k] == b@[k],
        decreases a.len() - i,
    {
        if a[i] != b[i] {
            return false;
        }
        i = i + 1;
    }
    assert(a@ =~= b@);
    true
}

/// Whether two strings hold the same characters.
pub fn str_eq(a: &str, b: &str) -> (r: bool)
    ensures
        r == (a@ == b@),
{
    let ca = chars_of(a);
    let cb = chars_of(b);
    chars_eq(&ca, &cb)
}

/// The decimal digit for `d < 10`.
pub open spec fn digit_char(d: nat) -> char {
    if d == 0 { '0' } else if d == 1 { '1' } else if d == 2 { '2' } else if d == 3 { '3' }
    else if d == 4 { '4' } else if d == 5 { '5' } else if d == 6 { '6' } else if d == 7 { '7' }
    else if d == 8 { '8' } else { '9' }
}

/// The decimal numeral of `n`, without leading zeros.
pub open spec fn decimal(n: nat) -> Seq<char>
    decreases n,
{
    if n < 10 {
        seq![digit_char(n)]
    } else {
        decimal(n / 10).push(digit_char(n % 10))
    }
}

fn digit_of(d: usize) -> (c: char)
    requires
        d < 10,
    ensures
        c == digit_char(d as nat),
{
    if d == 0 { '0' } else if d == 1 { '1' } else if d == 2 { '2' } else if d == 3 { '3' }
    else if d == 4 { '4' } else if d == 5 { '5' } else if d == 6 { '6' } else if d == 7 { '7' }
    else if d == 8 { '8' } else { '9' }
}

/// The decimal numeral of `n`, as `format!("{}", n)` writes it.
pub fn usize_to_string(n: usize) -> (s: String)
    ensures
        s@ == decimal(n as nat),
    decreases n,
{
    if n < 10 {
        let mut s = String::new();
        push_char(&mut s, digit_of(n));
        assert(s@ =~= seq![digit_char(n as nat)]);
        s
    } else {
        let mut s = usize_to_string(n / 10);
        push_char(&mut s, digit_of(n % 10));
        s
    }
}

/// The decimal numeral of `n`, as `format!("{}", n)` writes it.
pub fn u64_to_string(n: u64) -> (s: String)
    ensures
        s@ == decimal(n as nat),
    decreases n,
{
    if n < 10 {
        let mut s = String::new();
        push_char(&mut s, digit_of(n as usize));
        assert(s@ =~= seq![digit_char(n as nat)]);
        s
    } else {
        let mut s = u64_to_string(n / 10);
        push_char(&mut s, digit_of((n % 10) as usize));
        s
    }
}

/// `s` with every occurrence of the non-empty `pat`, scanned from the left
/// without overlaps, replaced by `rep`.
pub open spec fn replaced(s: Seq<char>, pat: Seq<char>, rep: Seq<char>) -> Seq<char>
    decreases s.len(),
{
    if pat.len() == 0 || s.len() < pat.len() {
        s
    } else if s.take(pat.len() as int) == pat {
        rep + replaced(s.skip(pat.len() as int), pat, rep)
    } else {
        seq![s[0]] + replaced(s.skip(1), pat, rep)
    }
}

/// Whether `pat` occurs in `s` at `k`.
fn starts_at(s: &Vec<char>, pat: &Vec<char>, k: usize) -> (r: bool)
    requires
        k <= s@.len(),
    ensures
        r == (pat@.len() <= s@.len() - k && s@.skip(k as int).take(pat@.len() as int) == pat@),
{
    if pat.len() > s.len() - k {
        return false;
    }
    let mut i: usize = 0;
    while i < pat.len()
        invariant
            k + pat@.len() <= s@.len(),
            i <= pat@.len(),
            forall|m: int| 0 <= m < i ==> s@[k + m] == pat@[m],
        decreases pat.len() - i,
    {
        assert(k + i < s.len());
        if s[k + i] != pat[i] {
            assert(s@.skip(k as int).take(pat@.len() as int)[i as int] != pat@[i as int]);
            return false;
        }
        i = i + 1;
    }
    assert(s@.skip(k as int).take(pat@.len() as int) =~= pat@);
    true
}

/// Replaces every occurrence of `from` in `s` by `to`, as `str::replace` does.
pub fn replace_all(s: &str, from: &str, to: &str) -> (r: String)
    requires
        from@.len() > 0,
    ensures
        r@ == replaced(s@, from@, to@),
{
    let cs = chars_of(s);
    let pat = chars_of(from);
    let rep = chars_of(to);
    let mut out = String::new();
    let mut i: usize = 0;
    assert(cs@.skip(0) =~= cs@);
    while i < cs.len()
        invariant
            i <= cs@.len(),
            pat@.len() > 0,
            out@ + replaced(cs@.skip(i as int), pat@, rep@) == replaced(cs@, pat@, rep@),
        decreases cs.len() - i,
    {
        let ghost rest = cs@.skip(i as int);
        let ghost before = out@;
        if starts_at(&cs, &pat, i) {
            push_chars(&mut out, &rep);
            assert(rest.skip(pat@.len() as int) =~= cs@.skip(i + pat@.len()));
            i = i + pat.len();
        } else {
            push_char(&mut out, cs[i]);
            assert(rest.skip(1) =~= cs@.skip(i + 1));
            assert(rest.len() < pat@.len() ==> replaced(rest, pat@, rep@) == rest);
            proof {
                if rest.len() < pat@.len() {
                    assert(replaced(rest.skip(1), pat@, rep@) == rest.skip(1)) by {
                        assert(rest.skip(1).len() < pat@.len());
                    }
                    assert(rest =~= seq![rest[0]] + rest.skip(1));
                }
            }
            i = i + 1;
        }
        assert(out@ + replaced(cs@.skip(i as int), pat@, rep@) =~= before + replaced(rest, pat@, rep@));
    }
    assert(replaced(cs@.skip(cs@.len() as int), pat@, rep@) =~= Seq::<char>::empty());
    out
}


/// What `str::to_lowercase` returns for the given characters.
pub uninterp spec fn lowercase_of(s: Seq<char>) -> Seq<char>;

/// Lower-cases a string.
///
/// Calls `str::to_lowercase`. The contract names the result as a function of
/// the input characters and states the all-ASCII case, where the Unicode
/// mapping turns `A`..`Z` into `a`..`z` one for one and keeps every other
/// ASCII character; the rest of the Unicode mapping is not restated.
#[verifier::external_body]
pub(crate) fn to_lowercase(s: &str) -> (r: String)
    ensures
        r@ == lowercase_of(s@),
        is_ascii_text(s@) ==> r@ == s@.map_values(|c: char| ascii_lower(c)),
{
    s.to_lowercase()
}

/// What `format!("{:?}", s)` writes for a string: the quoted, escaped text.
pub uninterp spec fn debug_quoted(s: Seq<char>) -> Seq<char>;

/// The `Debug` rendering of a string.
///
/// Formats `s` with `{:?}`; the escaping rules are not restated here: the
/// contract only names the result as a function of the characters.
#[verifier::external_body]
pub(crate) fn debug_string(s: &str) -> (r: String)
    ensures
        r@ == debug_quoted(s@),
{
    format!("{:?}", s)
}

/// Whether `s` begins with `p`.
pub fn starts_with(s: &str, p: &str) -> (r: bool)
    ensures
        r == (p@.len() <= s@.len() && s@.subrange(0, p@.len() as int) == p@),
{
    let n = p.unicode_len();
    if n > s.unicode_len() {
        return false;
    }
    let mut i: usize = 0;
    while i < n
        invariant
            n == p@.len(),
            n <= s@.len(),
            i <= n,
            forall|k: int| 0 <= k < i ==> s@[k] == p@[k],
        decreases n - i,
    {
        if s.get_char(i) != p.get_char(i) {
            assert(s@.subrange(0, n as int)[i as int] != p@[i as int]);
            return false;
        }
        i = i + 1;
    }
    assert(s@.subrange(0, n as int) =~= p@);
    true
}

/// Whether `s` ends with `p`.
pub open spec fn has_suffix(s: Seq<char>, p: Seq<char>) -> bool {
    p.len() <= s.len() && s.subrange(s.len() - p.len(), s.len() as int) == p
}

/// Whether `s` ends with `p`.
pub fn ends_with(s: &str, p: &str) -> (r: bool)
    ensures
        r == has_suffix(s@, p@),
{
    let n = p.unicode_len();
    let m = s.unicode_len();
    if n > m {
        return false;
    }
    let off = m - n;
    let mut i: usize = 0;
    while i < n
        invariant
            n == p@.len(),
            m == s@.len(),
            off + n == m,
            i <= n,
            forall|k: int| 0 <= k < i ==> s@[off + k] == p@[k],
        decreases n - i,
    {
        if s.get_char(off + i) != p.get_char(i) {
            assert(s@.subrange(off as int, m as int)[i as int] != p@[i as int]);
            return false;
        }
        i = i + 1;
    }
    assert(s@.subrange(off as int, m as int) =~= p@);
    true
}

/// Whether `p` occurs somewhere in `s`.
pub open spec fn contains_seq(s: Seq<char>, p: Seq<char>) -> bool {
    exists|k: int| 0 <= k && k + p.len() <= s.len() && #[trigger] s.subrange(k, k + p.len()) == p
}

/// Whether `p` occurs somewhere in `s`.
pub fn contains_str(s: &str, p: &str) -> (r: bool)
    ensures
        r == contains_seq(s@, p@),
{
    let cs = chars_of(s);
    let ps = chars_of(p);
    if ps.len() > cs.len() {
        return false;
    }
    let last = cs.len() - ps.len();
    let mut k: usize = 0;
    while k <= last
        invariant
            cs@ == s@,
            ps@ == p@,
            last + ps@.len() == cs@.len(),
            forall|m: int| 0 <= m < k && m + p@.len() <= s@.len() ==> #[trigger] s@.subrange(m, m + p@.len()) != p@,
        decreases last + 1 - k,
    {
        if starts_at(&cs, &ps, k) {
            assert(cs@.skip(k as int).take(ps@.len() as int) =~= cs@.subrange(k as int, k + ps@.len()));
            return true;
        }
        assert(cs@.skip(k as int).take(ps@.len() as int) =~= cs@.subrange(k as int, k + ps@.len()));
        if k == last {
            return false;
        }
        k = k + 1;
    }
    false
}

/// Whether the character `c` occurs in `s`.
pub fn contains_char(s: &str, c: char) -> (r: bool)
    ensures
        r == s@.contains(c),
{
    let n = s.unicode_len();
    let mut i: usize = 0;
    while i < n
        invariant
            n == s@.len(),
            i <= n,
            forall|k: int| 0 <= k < i ==> s@[k] != c,
        decreases n - i,
    {
        if s.get_char(i) == c {
            assert(s@[i as int] == c);
            return true;
        }
        i = i + 1;
    }
    false
}


/// The characters of an optional string.
pub open spec fn opt_text(o: Option<String>) -> Option<Seq<char>> {
    match o {
        Some(s) => Some(s@),
        None => None,
    }
}

/// The characters of each string, in order.
pub open spec fn texts(v: Seq<String>) -> Seq<Seq<char>> {
    v.map_values(|s: String| s@)
}

/// Appends a copy of `s` to `v`.
pub fn push_text(v: &mut Vec<String>, s: &str)
    ensures
        texts(final(v)@) == texts(old(v)@).push(s@),
{
    v.push(String::from_str(s));
    assert(texts(v@) =~= texts(old(v)@).push(s@));
}

/// Appends `s` itself to `v`.
pub fn push_owned(v: &mut Vec<String>, s: String)
    ensures
        texts(final(v)@) == texts(old(v)@).push(s@),
{
    let ghost sv = s@;
    v.push(s);
    assert(texts(v@) =~= texts(old(v)@).push(sv));
}

/// Appends copies of the strings in `w` to `v`.
pub fn extend_texts(v: &mut Vec<String>, w: &[String])
    ensures
        texts(final(v)@) == texts(old(v)@) + texts(w@),
{
    let ghost v0 = texts(v@);
    let mut i: usize = 0;
    while i < w.len()
        invariant
            i <= w@.len(),
            texts(v@) == v0 + texts(w@.subrange(0, i as int)),
        decreases w.len() - i,
    {
        push_text(v, w[i].as_str());
        assert(texts(w@.subrange(0, i + 1)) =~= texts(w@.subrange(0, i as int)).push(w@[i as int]@));
        i = i + 1;
    }
    assert(w@.subrange(0, w@.len() as int) =~= w@);
}

/// Whether `a` sorts before `b`: the order of `str`'s `Ord`, character by
/// character on code points, a proper prefix first.
pub open spec fn text_less(a: Seq<char>, b: Seq<char>) -> bool
    decreases a.len(),
{
    if a.len() == 0 {
        b.len() > 0
    } else if b.len() == 0 {
        false
    } else if a[0] != b[0] {
        (a[0] as int) < (b[0] as int)
    } else {
        text_less(a.drop_first(), b.drop_first())
    }
}

/// Of two different texts, one sorts before the other, and never both.
pub proof fn lemma_text_less_total(a: Seq<char>, b: Seq<char>)
    ensures
        a != b ==> (text_less(a, b) || text_less(b, a)),
        !(text_less(a, b) && text_less(b, a)),
        !text_less(a, a),
    decreases a.len(),
{
    if a.len() > 0 {
        lemma_text_less_total(a.drop_first(), a.drop_first());
    }
    if a.len() == 0 && b.len() == 0 {
        assert(a =~= b);
    } else if a.len() > 0 && b.len() > 0 {
        if a[0] == b[0] {
            lemma_text_less_total(a.drop_first(), b.drop_first());
            if a.drop_first() == b.drop_first() {
                assert(a =~= seq![a[0]] + a.drop_first());
                assert(b =~= seq![b[0]] + b.drop_first());
                assert(a == b);
            }
        } else {
            assert((a[0] as int) != (b[0] as int));
        }
    }
}

/// The order of texts is transitive.
pub proof fn lemma_text_less_trans(a: Seq<char>, b: Seq<char>, c: Seq<char>)
    requires
        text_less(a, b),
        text_less(b, c),
    ensures
        text_less(a, c),
    decreases a.len(),
{
    if a.len() > 0 && b.len() > 0 && c.len() > 0 && a[0] == b[0] && b[0] == c[0] {
        lemma_text_less_trans(a.drop_first(), b.drop_first(), c.drop_first());
    }
}

/// Whether `a` sorts before `b`.
pub fn str_less(a: &str, b: &str) -> (r: bool)
    ensures
        r == text_less(a@, b@),
{
    let ca = chars_of(a);
    let cb = chars_of(b);
    let mut i: usize = 0;
    assert(a@.subrange(0, a@.len() as int) =~= a@);
    assert(b@.subrange(0, b@.len() as int) =~= b@);
    while i < ca.len() && i < cb.len()
        invariant
            i <= ca@.len(),
            i <= cb@.len(),
            ca@ == a@,
            cb@ == b@,
            forall|k: int| 0 <= k < i ==> ca@[k] == cb@[k],
            text_less(a@, b@) == text_less(a@.subrange(i as int, a@.len() as int), b@.subrange(i as int, b@.len() as int)),
        decreases ca.len() - i,
    {
        let x = ca[i];
        let y = cb[i];
        if x != y {
            return x < y;
        }
        assert(a@.subrange(i + 1, a@.len() as int) =~= a@.subrange(i as int, a@.len() as int).drop_first());
        assert(b@.subrange(i + 1, b@.len() as int) =~= b@.subrange(i as int, b@.len() as int).drop_first());
        i = i + 1;
    }
    i < cb.len()
}

/// The number of whitespace characters that start `s`.
pub open spec fn lead_ws(s: Seq<char>) -> nat
    decreases s.len(),
{
    if s.len() > 0 && char_is_whitespace(s[0]) {
        1 + lead_ws(s.drop_first())
    } else {
        0
    }
}

/// The number of whitespace characters that end `s`.
pub open spec fn trail_ws(s: Seq<char>) -> nat
    decreases s.len(),
{
    if s.len() > 0 && char_is_whitespace(s.last()) {
        1 + trail_ws(s.drop_last())
    } else {
        0
    }
}

/// `s` without leading and trailing whitespace, as `str::trim` leaves it.
pub open spec fn trim_ws(s: Seq<char>) -> Seq<char> {
    let t = s.subrange(lead_ws(s) as int, s.len() as int);
    t.subrange(0, t.len() - trail_ws(t))
}

proof fn lemma_lead_ws(s: Seq<char>, i: int)
    requires
        0 <= i <= s.len(),
        forall|k: int| 0 <= k < i ==> char_is_whitespace(#[trigger] s[k]),
    ensures
        lead_ws(s) == i + lead_ws(s.subrange(i, s.len() as int)),
        lead_ws(s) <= s.len(),
    decreases i,
{
    if i > 0 {
        let u = s.drop_first();
        assert(char_is_whitespace(s[0]));
        assert forall|k: int| 0 <= k < i - 1 implies char_is_whitespace(#[trigger] u[k]) by {
            assert(u[k] == s[k + 1]);
        }
        lemma_lead_ws(u, i - 1);
        assert(u.subrange(i - 1, u.len() as int) =~= s.subrange(i, s.len() as int));
    } else {
        assert(s.subrange(0, s.len() as int) =~= s);
        lemma_lead_ws_bound(s);
    }
}

proof fn lemma_lead_ws_bound(s: Seq<char>)
    ensures
        lead_ws(s) <= s.len(),
    decreases s.len(),
{
    if s.len() > 0 {
        lemma_lead_ws_bound(s.drop_first());
    }
}

proof fn lemma_trail_ws(s: Seq<char>, j: int)
    requires
        0 <= j <= s.len(),
        forall|k: int| j <= k < s.len() ==> char_is_whitespace(#[trigger] s[k]),
    ensures
        trail_ws(s) == (s.len() - j) + trail_ws(s.subrange(0, j)),
    decreases s.len() - j,
{
    if j < s.len() {
        let u = s.drop_last();
        assert(char_is_whitespace(s[s.len() - 1]));
        assert forall|k: int| j <= k < u.len() implies char_is_whitespace(#[trigger] u[k]) by {
            assert(u[k] == s[k]);
        }
        lemma_trail_ws(u, j);
        assert(u.subrange(0, j) =~= s.subrange(0, j));
    } else {
        assert(s.subrange(0, j) =~= s);
    }
}

/// `s` without leading and trailing whitespace.
pub fn trim_text(s: &str) -> (r: String)
    ensures
        r@ == trim_ws(s@),
{
    let cs = chars_of(s);
    let n = cs.len();
    let mut lo: usize = 0;
    while lo < n && is_whitespace(cs[lo])
        invariant
            cs@ == s@,
            n == s@.len(),
            lo <= n,
            forall|k: int| 0 <= k < lo ==> char_is_whitespace(#[trigger] s@[k]),
        decreases n - lo,
    {
        lo = lo + 1;
    }
    proof {
        lemma_lead_ws(s@, lo as int);
        let rest = s@.subrange(lo as int, n as int);
        if lo < n {
            assert(rest[0] == s@[lo as int]);
            assert(!char_is_whitespace(rest[0]));
        }
        assert(lead_ws(s@) == lo);
    }
    let ghost t = s@.subrange(lo as int, n as int);
    let mut hi: usize = n;
    while hi > lo && is_whitespace(cs[hi - 1])
        invariant
            cs@ == s@,
            n == s@.len(),
            lo <= hi <= n,
            t == s@.subrange(lo as int, n as int),
            forall|k: int| hi <= k < n ==> char_is_whitespace(#[trigger] s@[k]),
        decreases hi,
    {
        hi = hi - 1;
    }
    proof {
        assert forall|k: int| (hi - lo) <= k < t.len() implies char_is_whitespace(#[trigger] t[k]) by {
            assert(t[k] == s@[lo + k]);
        }
        lemma_trail_ws(t, (hi - lo) as int);
        let u = t.subrange(0, (hi - lo) as int);
        if hi > lo {
            assert(u.last() == s@[hi - 1]);
        }
        assert(trail_ws(u) == 0);
    }
    let mut out = String::new();
    let mut k: usize = lo;
    while k < hi
        invariant
            cs@ == s@,
            lo <= k <= hi <= n,
            n == s@.len(),
            out@ == s@.subrange(lo as int, k as int),
        decreases hi - k,
    {
        push_char(&mut out, cs[k]);
        k = k + 1;
        assert(out@ =~= s@.subrange(lo as int, k as int));
    }
    assert(out@ =~= trim_ws(s@));
    out
}

/// The characters with the Unicode `White_Space` property.
pub open spec fn char_is_whitespace(c: char) -> bool {
    let u = c as u32;
    ||| 0x09 <= u <= 0x0d
    ||| u == 0x20
    ||| u == 0x85
    ||| u == 0xa0
    ||| u == 0x1680
    ||| 0x2000 <= u <= 0x200a
    ||| u == 0x2028
    ||| u == 0x2029
    ||| u == 0x202f
    ||| u == 0x205f
    ||| u == 0x3000
}

/// Whether a character is whitespace in the Unicode sense.
///
/// Calls `char::is_whitespace`, which answers whether the character has the
/// Unicode `White_Space` property; the contract lists the characters that
/// have it.
#[verifier::external_body]
pub(crate) fn is_whitespace(c: char) -> (r: bool)
    ensures
        r == char_is_whitespace(c),
{
    c.is_whitespace()
}

} // verus!
