//! Character-level helpers shared by the parsers and formatters.

use vstd::prelude::*;
use vstd::string::StringSliceAdditionalSpecFns;
use vstd::utf8::{decode_utf8, encode_utf8, is_char_boundary};

verus! {

/// The decimal digit character for a value below ten.
pub open spec fn digit_char(d: nat) -> char {
    if d == 0 { '0' }
    else if d == 1 { '1' }
    else if d == 2 { '2' }
    else if d == 3 { '3' }
    else if d == 4 { '4' }
    else if d == 5 { '5' }
    else if d == 6 { '6' }
    else if d == 7 { '7' }
    else if d == 8 { '8' }
    else { '9' }
}

/// Decimal representation of a natural number, without leading zeros.
pub open spec fn decimal(n: nat) -> Seq<char>
    decreases n,
{
    if n < 10 {
        seq![digit_char(n)]
    } else {
        decimal(n / 10).push(digit_char(n % 10))
    }
}

/// Characters of a string slice, in order.
pub fn str_chars(s: &str) -> (r: Vec<char>)
    ensures
        r@ == s@,
{
    let mut r: Vec<char> = Vec::new();
    for c in it: s.chars()
        invariant
            r@ == it.seq().take(it.index() as int),
    {
        r.push(c);
    }
    r
}

/// Whether two string slices hold the same characters.
pub fn str_eq(a: &str, b: &str) -> (r: bool)
    ensures
        r == (a@ == b@),
{
    a.to_owned() == b.to_owned()
}

/// Whether `lit` occurs in `s` at position `i`.
pub open spec fn occurs_at(s: Seq<char>, i: int, lit: Seq<char>) -> bool {
    0 <= i && i + lit.len() <= s.len() && s.subrange(i, i + lit.len()) == lit
}

/// Whether `s` starts with `p`.
pub open spec fn starts_with(s: Seq<char>, p: Seq<char>) -> bool {
    p.len() <= s.len() && s.take(p.len() as int) == p
}

/// Whether `s` ends with `p`.
pub open spec fn ends_with(s: Seq<char>, p: Seq<char>) -> bool {
    p.len() <= s.len() && s.skip(s.len() - p.len()) == p
}

/// Append a character to a string.
#[verifier::external_body]
pub fn push_char(s: &mut String, c: char)
    ensures
        final(s)@ == old(s)@.push(c),
{
    s.push(c)
}

/// Append a string slice to a string.
pub fn push_str(s: &mut String, t: &str)
    ensures
        final(s)@ == old(s)@ + t@,
{
    s.append(t)
}

/// Append characters to a string.
pub fn push_chars(s: &mut String, v: &[char])
    ensures
        final(s)@ == old(s)@ + v@,
{
    let mut i: usize = 0;
    while i < v.len()
        invariant
            0 <= i <= v.len(),
            s@ == old(s)@ + v@.take(i as int),
        decreases v.len() - i,
    {
        push_char(s, v[i]);
        assert(v@.take(i + 1) =~= v@.take(i as int).push(v@[i as int]));
        i = i + 1;
    }
    assert(v@.take(v.len() as int) =~= v@);
}

/// A string made of the given characters.
pub fn string_from_chars(v: &[char]) -> (s: String)
    ensures
        s@ == v@,
{
    let mut s = String::new();
    push_chars(&mut s, v);
    assert(Seq::<char>::empty() + v@ =~= v@);
    s
}

/// A string with the same characters as a string slice.
pub fn to_string(t: &str) -> (s: String)
    ensures
        s@ == t@,
{
    t.to_owned()
}

/// Digit character of a value below ten.
pub fn digit(d: u64) -> (c: char)
    requires
        d < 10,
    ensures
        c == digit_char(d as nat),
{
    if d == 0 { '0' }
    else if d == 1 { '1' }
    else if d == 2 { '2' }
    else if d == 3 { '3' }
    else if d == 4 { '4' }
    else if d == 5 { '5' }
    else if d == 6 { '6' }
    else if d == 7 { '7' }
    else if d == 8 { '8' }
    else { '9' }
}

/// Decimal digits of a number.
pub fn decimal_chars(n: u64) -> (r: Vec<char>)
    ensures
        r@ == decimal(n as nat),
    decreases n,
{
    if n < 10 {
        let r = vec![digit(n)];
        assert(r@ =~= seq![digit_char(n as nat)]);
        r
    } else {
        let mut r = decimal_chars(n / 10);
        r.push(digit(n % 10));
        r
    }
}

/// Append the decimal representation of a number.
pub fn push_decimal(s: &mut String, n: u64)
    ensures
        final(s)@ == old(s)@ + decimal(n as nat),
{
    let d = decimal_chars(n);
    push_chars(s, d.as_slice());
}

/// Whether `lit` occurs in `s` at position `i`.
pub fn matches_at(s: &[char], i: usize, lit: &str) -> (r: bool)
    ensures
        r == occurs_at(s@, i as int, lit@),
{
    let l = str_chars(lit);
    if l.len() > s.len() || i > s.len() - l.len() {
        return false;
    }
    let mut k: usize = 0;
    while k < l.len()
        invariant
            0 <= k <= l.len(),
            i + l.len() <= s.len(),
            l@ == lit@,
            forall|j: int| 0 <= j < k ==> s@[i + j] == l@[j],
        decreases l.len() - k,
    {
        if s[i + k] != l[k] {
            assert(s@.subrange(i as int, i + l.len())[k as int] != lit@[k as int]);
            return false;
        }
        k = k + 1;
    }
    assert(s@.subrange(i as int, i + l.len()) =~= lit@);
    true
}

/// Leftmost position at or after `i` where `lit` occurs in `s`.
pub open spec fn find_from(s: Seq<char>, lit: Seq<char>, i: int) -> Option<int>
    decreases s.len() + 1 - i,
{
    if i < 0 || i > s.len() {
        None
    } else if occurs_at(s, i, lit) {
        Some(i)
    } else {
        find_from(s, lit, i + 1)
    }
}

/// A position found by `find_from` is an occurrence, and none precedes it.
pub proof fn lemma_find_from(s: Seq<char>, lit: Seq<char>, i: int)
    requires
        0 <= i,
    ensures
        find_from(s, lit, i) matches Some(k) ==> i <= k && occurs_at(s, k, lit)
            && forall|j: int| i <= j < k ==> !occurs_at(s, j, lit),
        find_from(s, lit, i) is None ==> forall|j: int| i <= j ==> !occurs_at(s, j, lit),
    decreases s.len() + 1 - i,
{
    if i > s.len() {
    } else if occurs_at(s, i, lit) {
    } else {
        lemma_find_from(s, lit, i + 1);
    }
}

/// Whether a slice of characters starts with another one.
pub fn slice_starts_with(s: &[char], p: &[char]) -> (r: bool)
    ensures
        r == starts_with(s@, p@),
{
    if p.len() > s.len() {
        return false;
    }
    let mut k: usize = 0;
    while k < p.len()
        invariant
            0 <= k <= p.len(),
            p.len() <= s.len(),
            forall|j: int| 0 <= j < k ==> s@[j] == p@[j],
        decreases p.len() - k,
    {
        if s[k] != p[k] {
            assert(s@.take(p.len() as int)[k as int] != p@[k as int]);
            return false;
        }
        k = k + 1;
    }
    assert(s@.take(p.len() as int) =~= p@);
    true
}

/// Whether a slice of characters ends with another one.
pub fn slice_ends_with(s: &[char], p: &[char]) -> (r: bool)
    ensures
        r == ends_with(s@, p@),
{
    if p.len() > s.len() {
        return false;
    }
    let off = s.len() - p.len();
    let mut k: usize = 0;
    while k < p.len()
        invariant
            0 <= k <= p.len(),
            off + p.len() == s.len(),
            forall|j: int| 0 <= j < k ==> s@[off + j] == p@[j],
        decreases p.len() - k,
    {
        if s[off + k] != p[k] {
            assert(s@.skip(off as int)[k as int] != p@[k as int]);
            return false;
        }
        k = k + 1;
    }
    assert(s@.skip(off as int) =~= p@);
    true
}

/// Whether `lit` occurs in `s` at position `i`.
pub fn slice_occurs_at(s: &[char], i: usize, lit: &[char]) -> (r: bool)
    ensures
        r == occurs_at(s@, i as int, lit@),
{
    if lit.len() > s.len() || i > s.len() - lit.len() {
        return false;
    }
    let mut k: usize = 0;
    while k < lit.len()
        invariant
            0 <= k <= lit.len(),
            i + lit.len() <= s.len(),
            forall|j: int| 0 <= j < k ==> s@[i + j] == lit@[j],
        decreases lit.len() - k,
    {
        if s[i + k] != lit[k] {
            assert(s@.subrange(i as int, i + lit.len())[k as int] != lit@[k as int]);
            return false;
        }
        k = k + 1;
    }
    assert(s@.subrange(i as int, i + lit.len()) =~= lit@);
    true
}

/// Leftmost position at or after `i` where `lit` occurs in `s`.
pub fn slice_find_from(s: &[char], lit: &[char], i: usize) -> (r: Option<usize>)
    requires
        i <= s.len(),
    ensures
        r matches Some(k) ==> find_from(s@, lit@, i as int) == Some(k as int),
        r is None ==> find_from(s@, lit@, i as int) is None,
    decreases s.len() - i,
{
    if slice_occurs_at(s, i, lit) {
        Some(i)
    } else if i == s.len() {
        assert(find_from(s@, lit@, i + 1) is None);
        None
    } else {
        slice_find_from(s, lit, i + 1)
    }
}

/// Copy of the characters between two positions.
pub fn sub_chars(s: &[char], from: usize, to: usize) -> (r: Vec<char>)
    requires
        from <= to <= s.len(),
    ensures
        r@ == s@.subrange(from as int, to as int),
{
    let mut r: Vec<char> = Vec::new();
    let mut i = from;
    while i < to
        invariant
            from <= i <= to <= s.len(),
            r@ == s@.subrange(from as int, i as int),
        decreases to - i,
    {
        r.push(s[i]);
        assert(s@.subrange(from as int, i + 1) =~= s@.subrange(from as int, i as int).push(s@[i as int]));
        i = i + 1;
    }
    r
}

/// Characters with the Unicode `White_Space` property, as
/// `char::is_whitespace` documents them.
pub open spec fn spec_is_whitespace(c: char) -> bool {
    ||| ('\u{9}' <= c && c <= '\u{d}')
    ||| c == ' '
    ||| c == '\u{85}'
    ||| c == '\u{a0}'
    ||| c == '\u{1680}'
    ||| ('\u{2000}' <= c && c <= '\u{200a}')
    ||| c == '\u{2028}'
    ||| c == '\u{2029}'
    ||| c == '\u{202f}'
    ||| c == '\u{205f}'
    ||| c == '\u{3000}'
}

/// Whether a character is white space.
pub fn is_whitespace(c: char) -> (b: bool)
    ensures
        b == spec_is_whitespace(c),
{
    ('\u{9}' <= c && c <= '\u{d}') || c == ' ' || c == '\u{85}' || c == '\u{a0}' || c == '\u{1680}'
        || ('\u{2000}' <= c && c <= '\u{200a}') || c == '\u{2028}' || c == '\u{2029}' || c == '\u{202f}'
        || c == '\u{205f}' || c == '\u{3000}'
}

/// A text without its trailing white space.
pub open spec fn spec_trim_end(s: Seq<char>) -> Seq<char>
    decreases s.len(),
{
    if s.len() > 0 && spec_is_whitespace(s.last()) {
        spec_trim_end(s.drop_last())
    } else {
        s
    }
}

/// Characters without the trailing white space.
pub fn trim_end_chars(s: &[char]) -> (r: Vec<char>)
    ensures
        r@ == spec_trim_end(s@),
{
    let mut n: usize = s.len();
    assert(s@.take(n as int) =~= s@);
    while n > 0 && is_whitespace(s[n - 1])
        invariant
            0 <= n <= s.len(),
            spec_trim_end(s@) == spec_trim_end(s@.take(n as int)),
        decreases n,
    {
        assert(s@.take(n as int).drop_last() =~= s@.take(n - 1));
        n = n - 1;
    }
    let r = sub_chars(s, 0, n);
    assert(r@ =~= s@.take(n as int));
    r
}

/// Whether a character is an ASCII decimal digit.
pub open spec fn is_digit(c: char) -> bool {
    '0' <= c && c <= '9'
}

/// Value of a string of decimal digits.
pub open spec fn digits_value(s: Seq<char>) -> nat
    decreases s.len(),
{
    if s.len() == 0 {
        0
    } else {
        digits_value(s.drop_last()) * 10 + ((s.last() as int - '0' as int) as nat)
    }
}

/// An unsigned number as `str::parse::<usize>` reads it: an optional plus
/// sign, then at least one decimal digit, and a value that fits.
pub open spec fn spec_parse_usize(s: Seq<char>) -> Option<usize> {
    spec_parse_digits(if s.len() > 0 && s[0] == '+' { s.skip(1) } else { s })
}

/// Whether all characters are decimal digits.
pub open spec fn all_digits(d: Seq<char>) -> bool {
    forall|i: int| 0 <= i < d.len() ==> is_digit(#[trigger] d[i])
}

/// The value of at least one decimal digit, if it fits.
pub open spec fn spec_parse_digits(d: Seq<char>) -> Option<usize> {
    if d.len() > 0 && all_digits(d) && digits_value(d) <= usize::MAX {
        Some(digits_value(d) as usize)
    } else {
        None
    }
}

/// The decimal representation of a number is made of digits whose value is
/// the number.
pub proof fn lemma_decimal_digits(n: nat)
    ensures
        decimal(n).len() > 0,
        all_digits(decimal(n)),
        digits_value(decimal(n)) == n,
    decreases n,
{
    if n >= 10 {
        lemma_decimal_digits(n / 10);
        let d = decimal(n);
        assert(d.drop_last() =~= decimal(n / 10));
        let r = n % 10;
        assert(digit_char(r) as int - '0' as int == r);
        assert(d.last() == digit_char(r));
        assert(digits_value(d) == digits_value(decimal(n / 10)) * 10 + r);
        assert((n / 10) * 10 + r == n);
        assert forall|i: int| 0 <= i < d.len() implies is_digit(#[trigger] d[i]) by {
            if i < d.len() - 1 {
                assert(d[i] == decimal(n / 10)[i]);
            }
        }
    } else {
        assert(digit_char(n) as int - '0' as int == n);
        let d = decimal(n);
        assert(d == seq![digit_char(n)]);
        assert(d.drop_last() =~= Seq::<char>::empty());
        assert(digits_value(d.drop_last()) == 0);
        assert(digits_value(d) == digits_value(d.drop_last()) * 10 + (d.last() as int - '0' as int));
    }
}

proof fn lemma_digits_value_grows(s: Seq<char>, k: int)
    requires
        0 <= k <= s.len(),
        forall|i: int| 0 <= i < s.len() ==> is_digit(#[trigger] s[i]),
    ensures
        digits_value(s.take(k)) <= digits_value(s),
    decreases s.len() - k,
{
    if k < s.len() {
        lemma_digits_value_grows(s, k + 1);
        assert(s.take(k + 1).drop_last() =~= s.take(k));
    } else {
        assert(s.take(k) =~= s);
    }
}

/// Parse an unsigned number from characters.
pub fn parse_usize_chars(s: &[char]) -> (r: Option<usize>)
    ensures
        r == spec_parse_usize(s@),
{
    let start: usize = if s.len() > 0 && s[0] == '+' { 1 } else { 0 };
    let ghost d = if s@.len() > 0 && s@[0] == '+' { s@.skip(1) } else { s@ };
    assert(d =~= s@.skip(start as int));
    if start == s.len() {
        return None;
    }
    let mut value: usize = 0;
    let mut i: usize = start;
    assert(d.take(0) =~= Seq::<char>::empty());
    while i < s.len()
        invariant
            start <= i <= s.len(),
            start < s.len(),
            d == s@.skip(start as int),
            d == (if s@.len() > 0 && s@[0] == '+' { s@.skip(1) } else { s@ }),
            forall|j: int| 0 <= j < i - start ==> is_digit(#[trigger] d[j]),
            value as nat == digits_value(d.take(i - start)),
        decreases s.len() - i,
    {
        let c = s[i];
        assert(d[i - start] == c);
        if !('0' <= c && c <= '9') {
            assert(!is_digit(d[i - start]));
            assert(!all_digits(d));
            return None;
        }
        let digit = (c as u32 - '0' as u32) as usize;
        assert(d.take(i + 1 - start).drop_last() =~= d.take(i - start));
        match value.checked_mul(10) {
            Some(v) => match v.checked_add(digit) {
                Some(w) => {
                    value = w;
                },
                None => {
                    proof {
                        assert(digits_value(d.take(i + 1 - start)) == value * 10 + digit);
                        if all_digits(d) {
                            lemma_digits_value_grows(d, i + 1 - start);
                        }
                    }
                    return None;
                },
            },
            None => {
                proof {
                    assert(digits_value(d.take(i + 1 - start)) == value * 10 + digit);
                    if all_digits(d) {
                        lemma_digits_value_grows(d, i + 1 - start);
                    }
                }
                return None;
            },
        }
        i = i + 1;
    }
    assert(d.take(s.len() - start) =~= d);
    Some(value)
}

/// Length in bytes of a text encoded in UTF-8, as `str::len` counts it.
pub open spec fn utf8_len(s: Seq<char>) -> int {
    encode_utf8(s).len() as int
}

/// What `str::get(offset..)` holds: the text after the first `offset`
/// bytes when they end on a character, nothing otherwise.
pub open spec fn byte_suffix(s: Seq<char>, offset: int) -> Seq<char> {
    let b = encode_utf8(s);
    if is_char_boundary(b, offset) {
        decode_utf8(b.subrange(offset, b.len() as int))
    } else {
        Seq::empty()
    }
}

/// What `str::get(..len)` holds: the first `len` bytes when they end on a
/// character, nothing otherwise.
pub open spec fn byte_take(s: Seq<char>, len: int) -> Seq<char> {
    let b = encode_utf8(s);
    if is_char_boundary(b, len) {
        decode_utf8(b.take(len))
    } else {
        Seq::empty()
    }
}

/// A text cut to at most `len` bytes: whole when it fits, otherwise its
/// first `len` bytes when they end on a character, and nothing else.
pub open spec fn byte_prefix(s: Seq<char>, len: int) -> Seq<char> {
    if utf8_len(s) <= len {
        s
    } else {
        byte_take(s, len)
    }
}

/// Number of bytes of a string slice.
pub fn str_len(s: &str) -> (n: usize)
    ensures
        n == utf8_len(s@),
{
    s.as_bytes().len()
}

/// The text after the first `offset` bytes, or nothing when they do not end
/// on a character.
pub fn str_suffix(s: &str, offset: usize) -> (r: String)
    ensures
        r@ == byte_suffix(s@, offset as int),
{
    broadcast use vstd::utf8::encode_utf8_valid_utf8, vstd::utf8::encode_utf8_decode_utf8;
    if s.is_char_boundary(offset) {
        let (_head, tail) = s.split_at(offset);
        assert(decode_utf8(tail.spec_bytes()) == tail@);
        tail.to_owned()
    } else {
        String::new()
    }
}

/// The first `len` bytes, or nothing when they do not end on a character.
pub fn str_take(s: &str, len: usize) -> (r: String)
    ensures
        r@ == byte_take(s@, len as int),
{
    broadcast use vstd::utf8::encode_utf8_valid_utf8, vstd::utf8::encode_utf8_decode_utf8;
    if s.is_char_boundary(len) {
        let (head, _tail) = s.split_at(len);
        assert(decode_utf8(head.spec_bytes()) == head@);
        head.to_owned()
    } else {
        String::new()
    }
}

/// A text cut to at most `len` bytes.
pub fn str_prefix(s: &str, len: usize) -> (r: String)
    ensures
        r@ == byte_prefix(s@, len as int),
{
    if str_len(s) <= len {
        s.to_owned()
    } else {
        str_take(s, len)
    }
}

/// A line without the carriage return that ends it.
pub open spec fn strip_cr(l: Seq<char>) -> Seq<char> {
    if l.len() > 0 && l.last() == '\r' {
        l.drop_last()
    } else {
        l
    }
}

/// The lines of `s` from a line that starts at `start`, looking for its end
/// at `i`.
pub open spec fn lines_from(s: Seq<char>, start: int, i: int) -> Seq<Seq<char>>
    decreases s.len() - i,
{
    if i >= s.len() {
        if start < s.len() {
            seq![s.subrange(start, s.len() as int)]
        } else {
            Seq::empty()
        }
    } else if s[i] == '\n' {
        seq![strip_cr(s.subrange(start, i))] + lines_from(s, i + 1, i + 1)
    } else {
        lines_from(s, start, i + 1)
    }
}

/// The lines of a text, as `str::lines` gives them: split at each line
/// feed, without a carriage return before it, and no empty line after a
/// final line feed.
pub open spec fn text_lines(s: Seq<char>) -> Seq<Seq<char>> {
    lines_from(s, 0, 0)
}

/// Views of strings.
pub open spec fn strings_view(v: Seq<String>) -> Seq<Seq<char>> {
    v.map_values(|s: String| s@)
}

/// The lines of a text.
pub fn lines_of(s: &str) -> (r: Vec<String>)
    ensures
        strings_view(r@) == text_lines(s@),
{
    let chars = str_chars(s);
    let ghost t = s@;
    let mut r: Vec<String> = Vec::new();
    let mut start: usize = 0;
    let mut i: usize = 0;
    while i < chars.len()
        invariant
            chars@ == t,
            start <= i <= chars.len(),
            text_lines(t) == strings_view(r@) + lines_from(t, start as int, i as int),
        decreases chars.len() - i,
    {
        if chars[i] == '\n' {
            let mut end = i;
            if end > start && chars[end - 1] == '\r' {
                end = end - 1;
            }
            let line = string_from_chars(sub_chars(chars.as_slice(), start, end).as_slice());
            assert(line@ == strip_cr(t.subrange(start as int, i as int)));
            let ghost before = r@;
            r.push(line);
            assert(strings_view(r@) =~= strings_view(before).push(line@));
            assert(strings_view(r@) + lines_from(t, i + 1, i + 1)
                =~= strings_view(before) + (seq![line@] + lines_from(t, i + 1, i + 1)));
            start = i + 1;
        }
        i = i + 1;
    }
    if start < chars.len() {
        let line = string_from_chars(sub_chars(chars.as_slice(), start, chars.len()).as_slice());
        let ghost before = r@;
        r.push(line);
        assert(strings_view(r@) =~= strings_view(before).push(line@));
    } else {
        assert(strings_view(r@) + Seq::<Seq<char>>::empty() =~= strings_view(r@));
    }
    r
}

/// A text without its leading white space.
pub open spec fn spec_trim_start(s: Seq<char>) -> Seq<char>
    decreases s.len(),
{
    if s.len() > 0 && spec_is_whitespace(s[0]) {
        spec_trim_start(s.drop_first())
    } else {
        s
    }
}

/// A text without white space at either end, as `str::trim` gives it.
pub open spec fn spec_trim(s: Seq<char>) -> Seq<char> {
    spec_trim_start(spec_trim_end(s))
}

/// Characters without the leading white space.
pub fn trim_start_chars(s: &[char]) -> (r: Vec<char>)
    ensures
        r@ == spec_trim_start(s@),
{
    let mut n: usize = 0;
    assert(s@.skip(0) =~= s@);
    while n < s.len() && is_whitespace(s[n])
        invariant
            0 <= n <= s.len(),
            spec_trim_start(s@) == spec_trim_start(s@.skip(n as int)),
        decreases s.len() - n,
    {
        assert(s@.skip(n as int).drop_first() =~= s@.skip(n + 1));
        n = n + 1;
    }
    let r = sub_chars(s, n, s.len());
    assert(r@ =~= s@.skip(n as int));
    r
}

/// A string without white space at either end.
pub fn trim(s: &str) -> (r: String)
    ensures
        r@ == spec_trim(s@),
{
    let chars = str_chars(s);
    let end = trim_end_chars(chars.as_slice());
    let both = trim_start_chars(end.as_slice());
    string_from_chars(both.as_slice())
}

/// Decimal representation of an integer, with a minus sign when negative.
pub open spec fn int_decimal(n: int) -> Seq<char> {
    if n < 0 {
        seq!['-'] + decimal((-n) as nat)
    } else {
        decimal(n as nat)
    }
}

/// Decimal representation of a 32-bit integer.
pub fn i32_string(n: i32) -> (s: String)
    ensures
        s@ == int_decimal(n as int),
{
    let mut s = String::new();
    if n < 0 {
        push_char(&mut s, '-');
        let abs: i64 = -(n as i64);
        push_decimal(&mut s, abs as u64);
    } else {
        push_decimal(&mut s, n as u64);
    }
    assert(s@ =~= int_decimal(n as int));
    s
}

/// Decimal representation of an unsigned integer.
pub fn u64_string(n: u64) -> (s: String)
    ensures
        s@ == decimal(n as nat),
{
    let mut s = String::new();
    push_decimal(&mut s, n);
    assert(s@ =~= decimal(n as nat));
    s
}

/// A signed 32-bit number as `str::parse::<i32>` reads it: an optional sign,
/// then at least one decimal digit, and a value that fits.
pub open spec fn spec_parse_i32(s: Seq<char>) -> Option<i32> {
    if s.len() > 0 && s[0] == '-' {
        match spec_parse_digits(s.skip(1)) {
            Some(v) => if v <= 0x8000_0000 { Some((-(v as int)) as i32) } else { None },
            None => None,
        }
    } else {
        match spec_parse_usize(s) {
            Some(v) => if v <= 0x7fff_ffff { Some(v as i32) } else { None },
            None => None,
        }
    }
}

/// A process identifier written in a text, surrounded by white space.
pub fn parse_pid(text: &str) -> (r: Option<i32>)
    ensures
        r == spec_parse_i32(spec_trim(text@)),
{
    let t = trim(text);
    let chars = str_chars(t.as_str());
    if chars.len() > 0 && chars[0] == '-' {
        let rest = sub_chars(chars.as_slice(), 1, chars.len());
        assert(rest@ =~= chars@.skip(1));
        if rest.len() > 0 && rest[0] == '+' {
            assert(!all_digits(rest@)) by { assert(!is_digit(rest@[0])); }
            return None;
        }
        assert(spec_parse_usize(rest@) == spec_parse_digits(rest@));
        match parse_usize_chars(rest.as_slice()) {
            Some(v) => if v <= 0x8000_0000 {
                let n: i64 = -(v as i64);
                Some(n as i32)
            } else {
                None
            },
            None => None,
        }
    } else {
        match parse_usize_chars(chars.as_slice()) {
            Some(v) => if v <= 0x7fff_ffff { Some(v as i32) } else { None },
            None => None,
        }
    }
}

} // verus!
