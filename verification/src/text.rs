//! Character-level helpers over strings. Every function is specified over the
//! `Seq<char>` view of its arguments.

use vstd::prelude::*;

verus! {

/// `String::push` appends one character to the end of the string.
pub assume_specification[ String::push ](s: &mut String, c: char)
    ensures
        final(s)@ == old(s)@.push(c),
;

/// The characters of `s`, in order.
pub fn chars_of(s: &str) -> (out: Vec<char>)
    ensures
        out@ == s@,
{
    let mut out: Vec<char> = Vec::new();
    for c in it: s.chars()
        invariant
            out@ == it.seq().take(it.index()),
            it.seq() == s@,
    {
        out.push(c);
    }
    out
}

/// The string made of the characters of `chars`, in order.
pub fn string_of(chars: &[char]) -> (out: String)
    ensures
        out@ == chars@,
{
    let mut out = String::new();
    let mut i: usize = 0;
    while i < chars.len()
        invariant
            i <= chars.len(),
            out@ == chars@.take(i as int),
        decreases chars.len() - i,
    {
        out.push(chars[i]);
        i += 1;
    }
    out
}

/// The characters of a string slice that may be absent.
pub open spec fn opt_str(value: Option<&str>) -> Option<Seq<char>> {
    match value {
        Some(text) => Some(text@),
        None => None,
    }
}

/// An owned copy of `s`.
pub fn owned(s: &str) -> (out: String)
    ensures
        out@ == s@,
{
    s.to_owned()
}

/// The characters with the Unicode `White_Space` property.
pub open spec fn is_whitespace(c: char) -> bool {
    let n = c as u32;
    ||| n == 0x20
    ||| 0x09 <= n <= 0x0d
    ||| n == 0x85
    ||| n == 0xa0
    ||| n == 0x1680
    ||| 0x2000 <= n <= 0x200a
    ||| n == 0x2028
    ||| n == 0x2029
    ||| n == 0x202f
    ||| n == 0x205f
    ||| n == 0x3000
}

/// Whether `c` has the Unicode `White_Space` property.
pub fn char_is_whitespace(c: char) -> (b: bool)
    ensures
        b == is_whitespace(c),
{
    let n: u32 = c as u32;
    n == 0x20 || (0x09 <= n && n <= 0x0d) || n == 0x85 || n == 0xa0 || n == 0x1680 || (0x2000 <= n
        && n <= 0x200a) || n == 0x2028 || n == 0x2029 || n == 0x202f || n == 0x205f || n == 0x3000
}

/// The characters that count as control characters (general category `Cc`).
pub open spec fn is_control(c: char) -> bool {
    let n = c as u32;
    n <= 0x1f || 0x7f <= n <= 0x9f
}

/// Whether `c` is a control character.
pub fn char_is_control(c: char) -> (b: bool)
    ensures
        b == is_control(c),
{
    let n: u32 = c as u32;
    n <= 0x1f || (0x7f <= n && n <= 0x9f)
}

/// The ASCII digits.
pub open spec fn is_ascii_digit(c: char) -> bool {
    '0' <= c <= '9'
}

/// The upper-case ASCII letters.
pub open spec fn is_ascii_upper(c: char) -> bool {
    'A' <= c <= 'Z'
}

/// The lower-case ASCII letters.
pub open spec fn is_ascii_lower(c: char) -> bool {
    'a' <= c <= 'z'
}

/// The ASCII letters.
pub open spec fn is_ascii_alpha(c: char) -> bool {
    is_ascii_upper(c) || is_ascii_lower(c)
}

/// Whether `c` is an ASCII digit.
pub fn char_is_ascii_digit(c: char) -> (b: bool)
    ensures
        b == is_ascii_digit(c),
{
    '0' <= c && c <= '9'
}

/// Whether `c` is an upper-case ASCII letter.
pub fn char_is_ascii_upper(c: char) -> (b: bool)
    ensures
        b == is_ascii_upper(c),
{
    'A' <= c && c <= 'Z'
}

/// Whether `c` is an ASCII letter.
pub fn char_is_ascii_alpha(c: char) -> (b: bool)
    ensures
        b == is_ascii_alpha(c),
{
    ('A' <= c && c <= 'Z') || ('a' <= c && c <= 'z')
}

/// `c` with an ASCII lower-case letter replaced by its upper-case form.
pub open spec fn upper_char(c: char) -> char {
    if is_ascii_lower(c) {
        ((c as u8) - 32) as char
    } else {
        c
    }
}

/// `c` with an ASCII upper-case letter replaced by its lower-case form.
pub open spec fn lower_char(c: char) -> char {
    if is_ascii_upper(c) {
        ((c as u8) + 32) as char
    } else {
        c
    }
}

/// `c` in upper case, where it is an ASCII letter.
pub fn char_to_ascii_upper(c: char) -> (out: char)
    ensures
        out == upper_char(c),
{
    if 'a' <= c && c <= 'z' {
        ((c as u8) - 32) as char
    } else {
        c
    }
}

/// `c` in lower case, where it is an ASCII letter.
pub fn char_to_ascii_lower(c: char) -> (out: char)
    ensures
        out == lower_char(c),
{
    if 'A' <= c && c <= 'Z' {
        ((c as u8) + 32) as char
    } else {
        c
    }
}

/// `s` with every ASCII letter in upper case.
pub open spec fn ascii_upper(s: Seq<char>) -> Seq<char> {
    Seq::new(s.len(), |i: int| upper_char(s[i]))
}

/// `s` with every ASCII letter in lower case.
pub open spec fn ascii_lower(s: Seq<char>) -> Seq<char> {
    Seq::new(s.len(), |i: int| lower_char(s[i]))
}

/// The characters with every ASCII letter in upper case.
pub fn to_ascii_upper(chars: &[char]) -> (out: Vec<char>)
    ensures
        out@ == ascii_upper(chars@),
{
    let mut out: Vec<char> = Vec::new();
    let mut i: usize = 0;
    while i < chars.len()
        invariant
            i <= chars.len(),
            out@ == ascii_upper(chars@).take(i as int),
        decreases chars.len() - i,
    {
        out.push(char_to_ascii_upper(chars[i]));
        i += 1;
    }
    out
}

/// The characters with every ASCII letter in lower case.
pub fn to_ascii_lower(chars: &[char]) -> (out: Vec<char>)
    ensures
        out@ == ascii_lower(chars@),
{
    let mut out: Vec<char> = Vec::new();
    let mut i: usize = 0;
    while i < chars.len()
        invariant
            i <= chars.len(),
            out@ == ascii_lower(chars@).take(i as int),
        decreases chars.len() - i,
    {
        out.push(char_to_ascii_lower(chars[i]));
        i += 1;
    }
    out
}

/// Whether two character sequences are equal.
pub fn chars_eq(a: &[char], b: &[char]) -> (same: bool)
    ensures
        same == (a@ == b@),
{
    if a.len() != b.len() {
        return false;
    }
    let mut i: usize = 0;
    while i < a.len()
        invariant
            i <= a.len(),
            a.len() == b.len(),
            a@.take(i as int) == b@.take(i as int),
        decreases a.len() - i,
    {
        if a[i] != b[i] {
            return false;
        }
        assert(a@.take(i + 1) == a@.take(i as int).push(a@[i as int]));
        assert(b@.take(i + 1) == b@.take(i as int).push(b@[i as int]));
        i += 1;
    }
    assert(a@.take(a.len() as int) == a@);
    assert(b@.take(b.len() as int) == b@);
    true
}

/// Whether the characters are those of the string `s`.
pub fn chars_are(a: &[char], s: &str) -> (same: bool)
    ensures
        same == (a@ == s@),
{
    let other = chars_of(s);
    chars_eq(a, other.as_slice())
}

/// Whether two strings hold the same characters.
pub fn str_eq(a: &str, b: &str) -> (same: bool)
    ensures
        same == (a@ == b@),
{
    let left = chars_of(a);
    let right = chars_of(b);
    chars_eq(left.as_slice(), right.as_slice())
}

/// The characters of `chars` from `from` up to `to`.
pub fn slice_chars(chars: &[char], from: usize, to: usize) -> (out: Vec<char>)
    requires
        from <= to <= chars.len(),
    ensures
        out@ == chars@.subrange(from as int, to as int),
{
    let mut out: Vec<char> = Vec::new();
    let mut i: usize = from;
    while i < to
        invariant
            from <= i <= to <= chars.len(),
            out@ == chars@.subrange(from as int, i as int),
        decreases to - i,
    {
        out.push(chars[i]);
        i += 1;
    }
    out
}

/// `s` without its leading whitespace.
pub open spec fn trim_start(s: Seq<char>) -> Seq<char>
    decreases s.len(),
{
    if s.len() > 0 && is_whitespace(s[0]) {
        trim_start(s.drop_first())
    } else {
        s
    }
}

/// `s` without its trailing whitespace.
pub open spec fn trim_end(s: Seq<char>) -> Seq<char>
    decreases s.len(),
{
    if s.len() > 0 && is_whitespace(s.last()) {
        trim_end(s.drop_last())
    } else {
        s
    }
}

/// `s` without its leading and trailing whitespace.
pub open spec fn trim(s: Seq<char>) -> Seq<char> {
    trim_end(trim_start(s))
}

/// The characters without the whitespace at their two ends.
pub fn trimmed(chars: &[char]) -> (out: Vec<char>)
    ensures
        out@ == trim(chars@),
{
    let n = chars.len();
    let mut start: usize = 0;
    assert(chars@.subrange(0, n as int) == chars@);
    while start < n && char_is_whitespace(chars[start])
        invariant
            start <= n == chars.len(),
            trim_start(chars@) == trim_start(chars@.subrange(start as int, n as int)),
        decreases n - start,
    {
        assert(chars@.subrange(start as int, n as int).drop_first() == chars@.subrange(
            start + 1,
            n as int,
        ));
        start += 1;
    }
    assert(chars@.subrange(0, n as int) == chars@);
    let mut end: usize = n;
    while end > start && char_is_whitespace(chars[end - 1])
        invariant
            start <= end <= n == chars.len(),
            trim(chars@) == trim_end(chars@.subrange(start as int, end as int)),
        decreases end,
    {
        assert(chars@.subrange(start as int, end as int).drop_last() == chars@.subrange(
            start as int,
            end - 1,
        ));
        end -= 1;
    }
    slice_chars(chars, start, end)
}

/// Whether `s` begins with `prefix`.
pub open spec fn starts_with(s: Seq<char>, prefix: Seq<char>) -> bool {
    prefix.len() <= s.len() && s.subrange(0, prefix.len() as int) == prefix
}

/// Whether `s` ends with `suffix`.
pub open spec fn ends_with(s: Seq<char>, suffix: Seq<char>) -> bool {
    suffix.len() <= s.len() && s.subrange(s.len() - suffix.len(), s.len() as int) == suffix
}

/// Whether `needle` occurs in `s` at position `at`.
pub open spec fn occurs_at(s: Seq<char>, needle: Seq<char>, at: int) -> bool {
    0 <= at && at + needle.len() <= s.len() && s.subrange(at, at + needle.len()) == needle
}

/// Whether `needle` occurs somewhere in `s`.
pub open spec fn contains_seq(s: Seq<char>, needle: Seq<char>) -> bool {
    exists|at: int| occurs_at(s, needle, at)
}

/// Whether `needle` occurs in `chars` at position `at`.
pub fn occurs_at_index(chars: &[char], needle: &[char], at: usize) -> (b: bool)
    ensures
        b == occurs_at(chars@, needle@, at as int),
{
    if at > chars.len() || needle.len() > chars.len() - at {
        return false;
    }
    let mut i: usize = 0;
    while i < needle.len()
        invariant
            i <= needle.len(),
            at + needle.len() <= chars.len(),
            chars@.subrange(at as int, at + i) == needle@.take(i as int),
        decreases needle.len() - i,
    {
        if chars[at + i] != needle[i] {
            assert(chars@.subrange(at as int, at + needle.len())[i as int] != needle@[i as int]);
            return false;
        }
        assert(chars@.subrange(at as int, at + i + 1) == chars@.subrange(at as int, at + i).push(
            chars@[at + i],
        ));
        assert(needle@.take(i + 1) == needle@.take(i as int).push(needle@[i as int]));
        i += 1;
    }
    assert(needle@.take(needle.len() as int) == needle@);
    true
}

/// Whether `chars` begins with `prefix`.
pub fn chars_start_with(chars: &[char], prefix: &[char]) -> (b: bool)
    ensures
        b == starts_with(chars@, prefix@),
{
    occurs_at_index(chars, prefix, 0)
}

/// Whether `chars` ends with `suffix`.
pub fn chars_end_with(chars: &[char], suffix: &[char]) -> (b: bool)
    ensures
        b == ends_with(chars@, suffix@),
{
    if suffix.len() > chars.len() {
        return false;
    }
    occurs_at_index(chars, suffix, chars.len() - suffix.len())
}

/// Whether `needle` occurs somewhere in `chars`.
pub fn chars_contain(chars: &[char], needle: &[char]) -> (b: bool)
    ensures
        b == contains_seq(chars@, needle@),
{
    if needle.len() > chars.len() {
        return false;
    }
    let last: usize = chars.len() - needle.len();
    let mut at: usize = 0;
    while at < last
        invariant
            at <= last,
            last == chars.len() - needle.len(),
            forall|k: int| 0 <= k < at ==> !occurs_at(chars@, needle@, k),
        decreases last - at,
    {
        if occurs_at_index(chars, needle, at) {
            return true;
        }
        at += 1;
    }
    occurs_at_index(chars, needle, last)
}

/// The first position of `c` in `s`, or the length of `s` where `c` does not occur.
pub open spec fn first_index_of(s: Seq<char>, c: char) -> int
    decreases s.len(),
{
    if s.len() == 0 || s[0] == c {
        0
    } else {
        1 + first_index_of(s.drop_first(), c)
    }
}

/// The first position of a character lies within the string or at its end, holds the character
/// where it lies within, and has nothing but other characters before it.
pub proof fn lemma_first_index_of(s: Seq<char>, c: char)
    ensures
        0 <= first_index_of(s, c) <= s.len(),
        first_index_of(s, c) < s.len() ==> s[first_index_of(s, c)] == c,
        forall|i: int| 0 <= i < first_index_of(s, c) ==> #[trigger] s[i] != c,
    decreases s.len(),
{
    if s.len() == 0 || s[0] == c {
    } else {
        let t = s.drop_first();
        lemma_first_index_of(t, c);
        assert forall|i: int| 0 <= i < first_index_of(s, c) implies #[trigger] s[i] != c by {
            if i > 0 {
                assert(s[i] == t[i - 1]);
            }
        }
    }
}

/// The first position of `c` in `chars`, or their length where `c` does not occur.
pub fn find_char(chars: &[char], c: char) -> (at: usize)
    ensures
        at == first_index_of(chars@, c),
        at <= chars.len(),
{
    let mut i: usize = 0;
    proof {
        lemma_first_index_of(chars@, c);
        assert(chars@.subrange(0, chars.len() as int) == chars@);
    }
    while i < chars.len() && chars[i] != c
        invariant
            i <= chars.len(),
            first_index_of(chars@, c) == i + first_index_of(
                chars@.subrange(i as int, chars.len() as int),
                c,
            ),
        decreases chars.len() - i,
    {
        assert(chars@.subrange(i as int, chars.len() as int).drop_first() == chars@.subrange(
            i + 1,
            chars.len() as int,
        ));
        i += 1;
    }
    i
}

/// Whether `chars` begins with the string `prefix`.
pub fn chars_start_with_str(chars: &[char], prefix: &str) -> (b: bool)
    ensures
        b == starts_with(chars@, prefix@),
{
    let wanted = chars_of(prefix);
    chars_start_with(chars, wanted.as_slice())
}

/// Whether `chars` ends with the string `suffix`.
pub fn chars_end_with_str(chars: &[char], suffix: &str) -> (b: bool)
    ensures
        b == ends_with(chars@, suffix@),
{
    let wanted = chars_of(suffix);
    chars_end_with(chars, wanted.as_slice())
}

/// Whether the string `needle` occurs somewhere in `chars`.
pub fn chars_contain_str(chars: &[char], needle: &str) -> (b: bool)
    ensures
        b == contains_seq(chars@, needle@),
{
    let wanted = chars_of(needle);
    chars_contain(chars, wanted.as_slice())
}

/// `s` without the run of `c` at its end.
pub open spec fn strip_trailing(s: Seq<char>, c: char) -> Seq<char>
    decreases s.len(),
{
    if s.len() > 0 && s.last() == c {
        strip_trailing(s.drop_last(), c)
    } else {
        s
    }
}

/// The characters without the run of `c` at their end.
pub fn without_trailing(chars: &[char], c: char) -> (out: Vec<char>)
    ensures
        out@ == strip_trailing(chars@, c),
{
    let mut end: usize = chars.len();
    assert(chars@.subrange(0, end as int) == chars@);
    while end > 0 && chars[end - 1] == c
        invariant
            end <= chars.len(),
            strip_trailing(chars@, c) == strip_trailing(chars@.subrange(0, end as int), c),
        decreases end,
    {
        assert(chars@.subrange(0, end as int).drop_last() == chars@.subrange(0, end - 1));
        end -= 1;
    }
    slice_chars(chars, 0, end)
}

/// The lower-case hexadecimal digit of `n`.
pub open spec fn hex_digit(n: int) -> char
    recommends
        0 <= n < 16,
{
    if n < 10 {
        (48 + n) as u8 as char
    } else {
        (87 + n) as u8 as char
    }
}

/// Two lower-case hexadecimal digits for each byte, the high one first.
pub open spec fn hex_lower(bytes: Seq<u8>) -> Seq<char>
    decreases bytes.len(),
{
    if bytes.len() == 0 {
        Seq::empty()
    } else {
        hex_lower(bytes.drop_last()).push(hex_digit(bytes.last() as int / 16)).push(
            hex_digit(bytes.last() as int % 16),
        )
    }
}

/// The lower-case hexadecimal digits.
pub open spec fn is_lower_hex(c: char) -> bool {
    ('0' <= c <= '9') || ('a' <= c <= 'f')
}

/// Every character of `s` is a lower-case hexadecimal digit.
pub open spec fn all_lower_hex(s: Seq<char>) -> bool {
    forall|i: int| 0 <= i < s.len() ==> is_lower_hex(#[trigger] s[i])
}

/// The hexadecimal form of bytes has two digits for each byte, and nothing but
/// lower-case hexadecimal digits.
pub proof fn lemma_hex_lower_shape(bytes: Seq<u8>)
    ensures
        hex_lower(bytes).len() == 2 * bytes.len(),
        all_lower_hex(hex_lower(bytes)),
    decreases bytes.len(),
{
    if bytes.len() > 0 {
        lemma_hex_lower_shape(bytes.drop_last());
        let high = bytes.last() as int / 16;
        let low = bytes.last() as int % 16;
        assert(is_lower_hex(hex_digit(high)));
        assert(is_lower_hex(hex_digit(low)));
        let shorter = hex_lower(bytes.drop_last());
        assert forall|i: int| 0 <= i < hex_lower(bytes).len() implies is_lower_hex(
            #[trigger] hex_lower(bytes)[i],
        ) by {
            if i < shorter.len() {
                assert(hex_lower(bytes)[i] == shorter[i]);
            }
        }
    }
}

fn hex_digit_of(n: u8) -> (c: char)
    requires
        n < 16,
    ensures
        c == hex_digit(n as int),
{
    if n < 10 {
        (48 + n) as char
    } else {
        (87 + n) as char
    }
}

/// Appends the hexadecimal form of `bytes` to `out`.
pub fn push_hex(out: &mut String, bytes: &[u8])
    ensures
        final(out)@ == old(out)@ + hex_lower(bytes@),
{
    let mut i: usize = 0;
    assert(bytes@.take(0) =~= Seq::empty());
    assert(out@ + Seq::<char>::empty() =~= out@);
    while i < bytes.len()
        invariant
            i <= bytes.len(),
            out@ == old(out)@ + hex_lower(bytes@.take(i as int)),
        decreases bytes.len() - i,
    {
        let b = bytes[i];
        proof {
            let upto = bytes@.take(i + 1);
            assert(upto.drop_last() == bytes@.take(i as int));
            assert(upto.last() == b);
            assert(old(out)@ + hex_lower(upto) =~= (old(out)@ + hex_lower(
                bytes@.take(i as int),
            )).push(hex_digit(b as int / 16)).push(hex_digit(b as int % 16)));
        }
        out.push(hex_digit_of(b / 16));
        out.push(hex_digit_of(b % 16));
        i += 1;
    }
    assert(bytes@.take(bytes.len() as int) == bytes@);
}

/// The character of the decimal digit `d`.
pub open spec fn digit_char(d: int) -> char
    recommends
        0 <= d < 10,
{
    (48 + d) as u8 as char
}

/// `n` in decimal, without leading zeros.
pub open spec fn decimal(n: nat) -> Seq<char>
    decreases n,
{
    if n < 10 {
        seq![digit_char(n as int)]
    } else {
        decimal(n / 10).push(digit_char((n % 10) as int))
    }
}

/// `n` in decimal, with a minus sign where it is negative.
pub open spec fn signed_decimal(n: int) -> Seq<char> {
    if n < 0 {
        seq!['-'] + decimal((-n) as nat)
    } else {
        decimal(n as nat)
    }
}

/// Appends `n` in decimal to `out`.
pub fn push_decimal(out: &mut String, n: u64)
    ensures
        final(out)@ == old(out)@ + decimal(n as nat),
    decreases n,
{
    if n >= 10 {
        push_decimal(out, n / 10);
    }
    let d: u8 = (n % 10) as u8;
    out.push((48 + d) as char);
    proof {
        if n >= 10 {
            assert(final(out)@ =~= old(out)@ + decimal(n as nat));
        } else {
            assert(final(out)@ =~= old(out)@ + decimal(n as nat));
        }
    }
}

/// `n` in decimal.
pub fn u64_to_decimal(n: u64) -> (out: String)
    ensures
        out@ == decimal(n as nat),
{
    let mut out = String::new();
    push_decimal(&mut out, n);
    assert(Seq::<char>::empty() + decimal(n as nat) =~= decimal(n as nat));
    out
}

/// Appends `n` in decimal to `out`, with a minus sign where it is negative.
pub fn push_signed_decimal(out: &mut String, n: i64)
    ensures
        final(out)@ == old(out)@ + signed_decimal(n as int),
{
    if n < 0 {
        out.push('-');
        let magnitude: u64 = if n == i64::MIN {
            9223372036854775808u64
        } else {
            (-n) as u64
        };
        push_decimal(out, magnitude);
        assert(final(out)@ =~= old(out)@ + (seq!['-'] + decimal((-n) as nat)));
    } else {
        push_decimal(out, n as u64);
    }
}

/// Every character of `s` is an ASCII digit.
pub open spec fn all_digits(s: Seq<char>) -> bool {
    forall|i: int| 0 <= i < s.len() ==> is_ascii_digit(#[trigger] s[i])
}

/// The number that the decimal digits `s` write.
pub open spec fn digits_value(s: Seq<char>) -> nat
    decreases s.len(),
{
    if s.len() == 0 {
        0
    } else {
        digits_value(s.drop_last()) * 10 + (s.last() as u32 - 48) as nat
    }
}

/// `s` without the `+` that it may begin with.
pub open spec fn without_plus(s: Seq<char>) -> Seq<char> {
    if s.len() > 0 && s[0] == '+' {
        s.drop_first()
    } else {
        s
    }
}

/// A number in decimal is made of digits, at least one, that write the number
/// again; it begins with a zero only where the number is zero.
pub proof fn lemma_decimal_shape(n: nat)
    ensures
        decimal(n).len() >= 1,
        all_digits(decimal(n)),
        digits_value(decimal(n)) == n,
        n > 0 ==> decimal(n)[0] != '0',
    decreases n,
{
    if n < 10 {
        let only = decimal(n);
        assert(only.drop_last() =~= Seq::<char>::empty());
        assert(digits_value(only.drop_last()) == 0);
        assert(only.last() == digit_char(n as int));
    } else {
        lemma_decimal_shape(n / 10);
        let all = decimal(n);
        let head = decimal(n / 10);
        assert(all.drop_last() =~= head);
        assert(all.last() == digit_char((n % 10) as int));
        assert(all[0] == head[0]);
        assert forall|i: int| 0 <= i < all.len() implies is_ascii_digit(#[trigger] all[i]) by {
            if i < head.len() {
                assert(all[i] == head[i]);
            }
        }
    }
}

/// What an optional `+` and then decimal digits write, where that is a number from
/// one to the largest `i64`.
pub open spec fn spec_parse_positive(s: Seq<char>) -> Option<int> {
    let digits = without_plus(s);
    if digits.len() == 0 || !all_digits(digits) {
        None
    } else if 1 <= digits_value(digits) <= i64::MAX {
        Some(digits_value(digits) as int)
    } else {
        None
    }
}

proof fn lemma_digits_value_grows(s: Seq<char>, upto: int)
    requires
        0 <= upto <= s.len(),
    ensures
        digits_value(s.take(upto)) <= digits_value(s),
    decreases s.len() - upto,
{
    if upto == s.len() {
        assert(s.take(upto) == s);
    } else {
        lemma_digits_value_grows(s, upto + 1);
        assert(s.take(upto + 1).drop_last() == s.take(upto));
    }
}

/// Reads a positive number; see [`spec_parse_positive`].
pub fn parse_positive(chars: &[char]) -> (number: Option<i64>)
    ensures
        match number {
            Some(n) => spec_parse_positive(chars@) == Some(n as int),
            None => spec_parse_positive(chars@) is None,
        },
{
    let start: usize = if chars.len() > 0 && chars[0] == '+' {
        1
    } else {
        0
    };
    let ghost digits = chars@.subrange(start as int, chars.len() as int);
    assert(digits == without_plus(chars@));
    if start >= chars.len() {
        return None;
    }
    let mut value: i64 = 0;
    let mut i: usize = start;
    assert(digits.take(0) =~= Seq::empty());
    while i < chars.len()
        invariant
            start <= i <= chars.len(),
            digits == chars@.subrange(start as int, chars.len() as int),
            digits == without_plus(chars@),
            all_digits(digits.take(i - start)),
            0 <= value,
            value == digits_value(digits.take(i - start)),
        decreases chars.len() - i,
    {
        let c = chars[i];
        proof {
            assert(digits[i - start] == c);
            assert(digits.take(i - start + 1).drop_last() == digits.take(i - start));
            assert(digits.take(i - start + 1).last() == c);
        }
        if !char_is_ascii_digit(c) {
            return None;
        }
        let d: i64 = (c as u32 - 48) as i64;
        if value > (i64::MAX - d) / 10 {
            proof {
                lemma_digits_value_grows(digits, i - start + 1);
            }
            return None;
        }
        value = value * 10 + d;
        assert forall|k: int| 0 <= k < i - start + 1 implies is_ascii_digit(
            #[trigger] digits.take(i - start + 1)[k],
        ) by {
            if k < i - start {
                assert(digits.take(i - start)[k] == digits[k]);
            }
        }
        i += 1;
    }
    assert(digits.take(digits.len() as int) == digits);
    if value >= 1 {
        Some(value)
    } else {
        None
    }
}

} // verus!
