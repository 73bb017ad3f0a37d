//! Text: decimal numerals, searching, splitting and letter case.
//!
//! A string is modelled by the sequence of its characters.

use vstd::prelude::*;

verus! {

/// The character of a decimal digit.
pub open spec fn digit_char(digit: nat) -> char {
    (48 + digit) as char
}

/// The decimal numeral of a number, without leading zeros.
pub open spec fn decimal(n: nat) -> Seq<char>
    decreases n,
{
    if n < 10 {
        seq![digit_char(n)]
    } else {
        decimal(n / 10).push(digit_char(n % 10))
    }
}

/// Whether `needle` occurs in `hay` as an unbroken run of characters.
pub open spec fn occurs_in(needle: Seq<char>, hay: Seq<char>) -> bool {
    exists|at: int| occurs_at(needle, hay, at)
}

/// Whether `needle` occurs in `hay` from position `at` on.
pub open spec fn occurs_at(needle: Seq<char>, hay: Seq<char>, at: int) -> bool {
    &&& 0 <= at
    &&& at + needle.len() <= hay.len()
    &&& hay.subrange(at, at + needle.len()) == needle
}

/// `s` without `prefix`, or `s` itself where it does not start with it.
pub open spec fn without_prefix(s: Seq<char>, prefix: Seq<char>) -> Seq<char> {
    if prefix.is_prefix_of(s) {
        s.skip(prefix.len() as int)
    } else {
        s
    }
}

/// The pieces of `s` between the occurrences of `separator`: one more than
/// there are occurrences.
pub open spec fn split_on(s: Seq<char>, separator: char) -> Seq<Seq<char>>
    decreases s.len(),
{
    if s.len() == 0 {
        seq![Seq::empty()]
    } else {
        let before = split_on(s.drop_last(), separator);
        if s.last() == separator {
            before.push(Seq::empty())
        } else {
            before.drop_last().push(before.last().push(s.last()))
        }
    }
}

/// `s` with every `from` replaced by `to`.
pub open spec fn replaced(s: Seq<char>, from: char, to: Seq<char>) -> Seq<char>
    decreases s.len(),
{
    if s.len() == 0 {
        Seq::empty()
    } else if s.last() == from {
        replaced(s.drop_last(), from, to) + to
    } else {
        replaced(s.drop_last(), from, to).push(s.last())
    }
}

/// An ASCII capital letter becomes the small one; other characters stay.
pub open spec fn ascii_lower_char(c: char) -> char {
    if 'A' <= c <= 'Z' {
        (c as u32 + 32) as char
    } else {
        c
    }
}

/// An ASCII small letter becomes the capital one; other characters stay.
pub open spec fn ascii_upper_char(c: char) -> char {
    if 'a' <= c <= 'z' {
        (c as u32 - 32) as char
    } else {
        c
    }
}

/// `s` with its ASCII capital letters made small.
pub open spec fn ascii_lower(s: Seq<char>) -> Seq<char> {
    s.map_values(|c: char| ascii_lower_char(c))
}

/// `s` with its ASCII small letters made capital.
pub open spec fn ascii_upper(s: Seq<char>) -> Seq<char> {
    s.map_values(|c: char| ascii_upper_char(c))
}

/// Whether every character of `s` is an ASCII one.
pub open spec fn all_ascii(s: Seq<char>) -> bool {
    forall|i: int| 0 <= i < s.len() ==> (#[trigger] s[i] as u32) < 128
}

/// Whether `c` is a decimal digit.
pub open spec fn is_digit(c: char) -> bool {
    '0' <= c <= '9'
}

/// Whether `s` holds decimal digits only.
pub open spec fn all_digits(s: Seq<char>) -> bool {
    forall|i: int| 0 <= i < s.len() ==> is_digit(#[trigger] s[i])
}

/// The number that a run of decimal digits denotes.
pub open spec fn digits_value(s: Seq<char>) -> nat
    decreases s.len(),
{
    if s.len() == 0 {
        0
    } else {
        digits_value(s.drop_last()) * 10 + (s.last() as u32 - 48) as nat
    }
}

/// The number that `s` denotes: an optional plus sign, then at least one
/// decimal digit and nothing else.
pub open spec fn numeral_value(s: Seq<char>) -> Option<nat> {
    let digits = without_prefix(s, seq!['+']);
    if digits.len() > 0 && all_digits(digits) {
        Some(digits_value(digits))
    } else {
        None
    }
}

/// The number that `s` denotes, where a `usize` can hold it.
pub open spec fn usize_value(s: Seq<char>) -> Option<usize> {
    match numeral_value(s) {
        Some(n) => if n <= usize::MAX {
            Some(n as usize)
        } else {
            None
        },
        None => None,
    }
}

/// The characters of a string.
pub fn chars_of(s: &str) -> (chars: Vec<char>)
    ensures
        chars@ == s@,
{
    let mut chars: Vec<char> = Vec::new();
    for c in it: s.chars()
        invariant
            it.seq() == s@,
            chars@ == it.seq().take(it.index() as int),
    {
        chars.push(c);
    }
    chars
}

/// Whether two runs of characters are the same.
pub fn same_chars(a: &Vec<char>, b: &Vec<char>) -> (same: bool)
    ensures
        same == (a@ == b@),
{
    if a.len() != b.len() {
        return false;
    }
    for i in 0..a.len()
        invariant
            a@.len() == b@.len(),
            a@.take(i as int) == b@.take(i as int),
    {
        if a[i] != b[i] {
            assert(a@[i as int] != b@[i as int]);
            return false;
        }
        assert(a@.take(i + 1) == a@.take(i as int).push(a@[i as int]));
        assert(b@.take(i + 1) == b@.take(i as int).push(b@[i as int]));
    }
    assert(a@ == a@.take(a@.len() as int));
    assert(b@ == b@.take(b@.len() as int));
    true
}

/// Whether two strings hold the same characters.
pub fn same_text(a: &str, b: &str) -> (same: bool)
    ensures
        same == (a@ == b@),
{
    same_chars(&chars_of(a), &chars_of(b))
}

/// The digit as a string.
fn digit_text(digit: u64) -> (text: &'static str)
    requires
        digit < 10,
    ensures
        text@ == seq![digit_char(digit as nat)],
{
    proof {
        reveal_strlit("0");
        reveal_strlit("1");
        reveal_strlit("2");
        reveal_strlit("3");
        reveal_strlit("4");
        reveal_strlit("5");
        reveal_strlit("6");
        reveal_strlit("7");
        reveal_strlit("8");
        reveal_strlit("9");
    }
    match digit {
        0 => "0",
        1 => "1",
        2 => "2",
        3 => "3",
        4 => "4",
        5 => "5",
        6 => "6",
        7 => "7",
        8 => "8",
        _ => "9",
    }
}

/// Appends the decimal numeral of `n`.
pub fn push_decimal(out: &mut String, n: u64)
    ensures
        final(out)@ == old(out)@ + decimal(n as nat),
    decreases n,
{
    if n >= 10 {
        push_decimal(out, n / 10);
    }
    out.append(digit_text(n % 10));
    assert(out@ == old(out)@ + decimal(n as nat));
}

/// Whether `needle` occurs in `hay`. The empty string occurs in every string.
pub fn contains(hay: &str, needle: &str) -> (found: bool)
    ensures
        found == occurs_in(needle@, hay@),
{
    let h = chars_of(hay);
    let n = chars_of(needle);
    if n.len() > h.len() {
        return false;
    }
    let last = h.len() - n.len();
    let mut at: usize = 0;
    while at <= last
        invariant
            h@ == hay@,
            n@ == needle@,
            last + n.len() == h.len(),
            at <= last + 1,
            forall|k: int| 0 <= k < at ==> !occurs_at(needle@, hay@, k),
        decreases last + 1 - at,
    {
        let mut matched: usize = 0;
        while matched < n.len() && h[at + matched] == n[matched]
            invariant
                h@ == hay@,
                n@ == needle@,
                at <= last,
                last + n.len() == h.len(),
                matched <= n@.len(),
                forall|k: int| 0 <= k < matched ==> h@[at + k] == n@[k],
            decreases n@.len() - matched,
        {
            matched = matched + 1;
        }
        if matched == n.len() {
            assert(hay@.subrange(at as int, at + needle@.len()) == needle@);
            assert(occurs_at(needle@, hay@, at as int));
            return true;
        }
        assert(!occurs_at(needle@, hay@, at as int)) by {
            assert(hay@.subrange(at as int, at + needle@.len())[matched as int] == h@[at + matched]);
        }
        if at == last {
            return false;
        }
        at = at + 1;
    }
    false
}

/// `s` without `prefix`, or `s` itself where it does not start with it.
pub fn strip<'a>(s: &'a str, prefix: &str) -> (rest: &'a str)
    ensures
        rest@ == without_prefix(s@, prefix@),
{
    let chars = chars_of(s);
    let lead = chars_of(prefix);
    if lead.len() > chars.len() {
        return s;
    }
    for i in 0..lead.len()
        invariant
            chars@ == s@,
            lead@ == prefix@,
            lead@.len() <= chars@.len(),
            forall|k: int| 0 <= k < i ==> chars@[k] == lead@[k],
    {
        if chars[i] != lead[i] {
            assert(!prefix@.is_prefix_of(s@)) by {
                assert(s@.subrange(0, prefix@.len() as int)[i as int] == s@[i as int]);
            }
            return s;
        }
    }
    assert(s@.subrange(0, prefix@.len() as int) == prefix@);
    s.substring_char(lead.len(), chars.len())
}

/// The pieces of a string between the occurrences of a separator.
pub fn split<'a>(s: &'a str, separator: char) -> (pieces: Vec<&'a str>)
    ensures
        texts(pieces@) == split_on(s@, separator),
{
    let chars = chars_of(s);
    let mut pieces: Vec<&'a str> = Vec::new();
    let mut start: usize = 0;
    proof {
        assert(chars@.subrange(0, 0) == Seq::<char>::empty());
        assert(texts(pieces@).push(Seq::empty()) == split_on(chars@.take(0), separator));
    }
    for i in 0..chars.len()
        invariant
            chars@ == s@,
            start <= i <= chars.len(),
            texts(pieces@).push(chars@.subrange(start as int, i as int)) == split_on(
                chars@.take(i as int),
                separator,
            ),
    {
        let ghost before = texts(pieces@);
        assert(chars@.take(i + 1).drop_last() == chars@.take(i as int));
        if chars[i] == separator {
            let piece = s.substring_char(start, i);
            pieces.push(piece);
            start = i + 1;
            assert(texts(pieces@) == before.push(piece@));
            assert(chars@.subrange(start as int, i + 1) == Seq::<char>::empty());
        } else {
            let ghost piece = chars@.subrange(start as int, i as int);
            assert(chars@.subrange(start as int, i + 1) == piece.push(chars@[i as int]));
            assert(before.push(piece).drop_last() == before);
        }
    }
    let ghost before = texts(pieces@);
    assert(chars@.take(chars.len() as int) == s@);
    let piece = s.substring_char(start, chars.len());
    pieces.push(piece);
    assert(texts(pieces@) == before.push(piece@));
    pieces
}

/// The characters of each of a list of strings.
pub open spec fn texts(list: Seq<&str>) -> Seq<Seq<char>> {
    Seq::new(list.len(), |i: int| list[i]@)
}

/// `s` with every `from` replaced by `to`.
pub fn replace(s: &str, from: char, to: &str) -> (result: String)
    ensures
        result@ == replaced(s@, from, to@),
{
    let chars = chars_of(s);
    let mut result = String::new();
    let mut start: usize = 0;
    assert(chars@.subrange(0, 0) == Seq::<char>::empty());
    assert(result@ + chars@.subrange(0, 0) == replaced(chars@.take(0), from, to@));
    for i in 0..chars.len()
        invariant
            chars@ == s@,
            start <= i <= chars.len(),
            result@ + chars@.subrange(start as int, i as int) == replaced(
                chars@.take(i as int),
                from,
                to@,
            ),
    {
        let ghost run = chars@.subrange(start as int, i as int);
        assert(chars@.take(i + 1).drop_last() == chars@.take(i as int));
        if chars[i] == from {
            result.append(s.substring_char(start, i));
            result.append(to);
            start = i + 1;
            assert(chars@.subrange(start as int, i + 1) == Seq::<char>::empty());
            assert(result@ + chars@.subrange(start as int, i + 1) == result@);
        } else {
            assert(chars@.subrange(start as int, i + 1) == run.push(chars@[i as int]));
            assert(result@ + run.push(chars@[i as int]) == (result@ + run).push(chars@[i as int]));
        }
    }
    assert(chars@.take(chars.len() as int) == s@);
    result.append(s.substring_char(start, chars.len()));
    result
}

/// The characters of `s`, the ASCII capital letters made small.
pub fn ascii_lowercase(s: &str) -> (lower: Vec<char>)
    ensures
        lower@ == ascii_lower(s@),
{
    let chars = chars_of(s);
    let mut lower: Vec<char> = Vec::new();
    for i in 0..chars.len()
        invariant
            chars@ == s@,
            lower@ == ascii_lower(chars@.take(i as int)),
    {
        let c = chars[i];
        if 'A' <= c && c <= 'Z' {
            lower.push(((c as u8) + 32) as char);
        } else {
            lower.push(c);
        }
        assert(chars@.take(i + 1) == chars@.take(i as int).push(c));
        assert(lower@ == ascii_lower(chars@.take(i + 1)));
    }
    assert(chars@.take(chars.len() as int) == s@);
    lower
}

/// Reads a decimal numeral: an optional plus sign, then digits. `None` where
/// `s` is not of that form or denotes a number that a `usize` cannot hold.
pub fn parse_usize(s: &str) -> (value: Option<usize>)
    ensures
        value == usize_value(s@),
{
    let chars = chars_of(s);
    let mut start: usize = 0;
    if chars.len() > 0 && chars[0] == '+' {
        start = 1;
    }
    let ghost digits = without_prefix(s@, seq!['+']);
    assert(digits == chars@.skip(start as int)) by {
        let plus = seq!['+'];
        if start == 1 {
            assert(s@.subrange(0, 1) == plus);
        } else {
            if plus.is_prefix_of(s@) {
                assert(s@.subrange(0, 1)[0] == '+');
            }
            assert(chars@.skip(0) == chars@);
        }
    }
    if start == chars.len() {
        return None;
    }
    let mut value: usize = 0;
    for i in start..chars.len()
        invariant
            chars@ == s@,
            start <= i <= chars.len(),
            digits == chars@.skip(start as int),
            digits == without_prefix(s@, seq!['+']),
            all_digits(digits.take(i - start)),
            value == digits_value(digits.take(i - start)),
    {
        let c = chars[i];
        let ghost read = digits.take(i - start);
        assert(digits[i - start] == c);
        assert(digits.take(i - start + 1) == read.push(c));
        assert(read.push(c).drop_last() == read);
        if !('0' <= c && c <= '9') {
            assert(!is_digit(digits[i - start]));
            return None;
        }
        let digit = (c as u32 - 48) as usize;
        proof {
            if all_digits(digits) {
                lemma_digits_value_grows(digits, i - start + 1);
            }
        }
        if value > (usize::MAX - digit) / 10 {
            return None;
        }
        value = value * 10 + digit;
    }
    assert(digits.take(digits.len() as int) == digits);
    Some(value)
}

/// A longer run of digits denotes no smaller number.
proof fn lemma_digits_value_grows(s: Seq<char>, len: int)
    requires
        0 <= len <= s.len(),
        all_digits(s),
    ensures
        digits_value(s.take(len)) <= digits_value(s),
    decreases s.len(),
{
    if len == s.len() {
        assert(s.take(len) == s);
    } else {
        let shorter = s.drop_last();
        assert(s.take(len) == shorter.take(len));
        lemma_digits_value_grows(shorter, len);
    }
}

/// What `str::to_uppercase` makes of a string: the Unicode capital form.
pub uninterp spec fn uppercase(s: Seq<char>) -> Seq<char>;

/// A string in capital letters. What an ASCII string becomes is plain; of other
/// strings, `str::to_uppercase` decides.
pub open spec fn capital(s: Seq<char>) -> Seq<char> {
    if all_ascii(s) {
        ascii_upper(s)
    } else {
        uppercase(s)
    }
}

/// `str::to_uppercase` of std. Claimed: the result depends on the characters
/// of `s` alone, and of an ASCII string it is that string with its small
/// letters made capital. Nothing is claimed of what other characters become.
#[verifier::external_body]
pub(crate) fn to_uppercase(s: &str) -> (upper: String)
    ensures
        upper@ == uppercase(s@),
        all_ascii(s@) ==> upper@ == ascii_upper(s@),
{
    s.to_uppercase()
}

}
