//! Text helpers shared by the parsers and the matching rules.

use vstd::prelude::*;
use vstd::string::{StrSliceExecFns, StringExecFns};

verus! {

/// The lower-case form of a text, as `str::to_lowercase` of the standard
/// library computes it.
pub uninterp spec fn lowercased(s: Seq<char>) -> Seq<char>;

/// Calls `str::to_lowercase`. Trusted: the result is the lower-case form that
/// the standard library defines, which depends on the text alone.
#[verifier::external_body]
pub(crate) fn to_lowercase(s: &str) -> (lower: String)
    ensures
        lower@ == lowercased(s@),
{
    s.to_lowercase()
}

/// Whether two string slices hold the same characters.
pub fn str_eq(a: &str, b: &str) -> (same: bool)
    ensures
        same == (a@ == b@),
{
    let a: String = a.to_owned();
    let b: String = b.to_owned();
    a == b
}

/// A text field that may be absent, as the characters it holds.
pub open spec fn text_of(s: Option<String>) -> Option<Seq<char>> {
    match s {
        Some(s) => Some(s@),
        None => None,
    }
}

/// The text of a string slice that may be absent.
pub open spec fn slice_text(s: Option<&str>) -> Option<Seq<char>> {
    match s {
        Some(s) => Some(s@),
        None => None,
    }
}

/// The characters of each string of a list.
pub open spec fn string_texts(strings: Seq<String>) -> Seq<Seq<char>> {
    strings.map_values(|s: String| s@)
}

/// The characters of each string slice of a list.
pub open spec fn slice_texts(strings: Seq<&str>) -> Seq<Seq<char>> {
    strings.map_values(|s: &str| s@)
}

/// The map that storing the entries of `list` one after the other gives: a
/// later entry takes the place of an earlier one with the same key.
pub open spec fn collected<V>(list: Seq<(String, V)>) -> Map<Seq<char>, V>
    decreases list.len(),
{
    if list.len() == 0 {
        Map::empty()
    } else {
        collected(list.drop_last()).insert(list.last().0@, list.last().1)
    }
}

/// A copy of a text field that may be absent.
pub fn clone_text(text: &Option<String>) -> (copy: Option<String>)
    ensures
        text_of(copy) == text_of(*text),
{
    match text {
        Some(s) => Some(s.clone()),
        None => None,
    }
}

/// Where the last `.`-delimited segment of `s` starts: just behind the last
/// `.`, or at 0 where `s` holds none.
pub open spec fn segment_start(s: Seq<char>) -> nat
    decreases s.len(),
{
    if s.len() == 0 {
        0
    } else if s.last() == '.' {
        s.len()
    } else {
        segment_start(s.drop_last())
    }
}

/// The last `.`-delimited segment of `s`: all of `s` where it holds no `.`.
pub open spec fn last_segment_of(s: Seq<char>) -> Seq<char> {
    s.subrange(segment_start(s) as int, s.len() as int)
}

/// The segment start lies within the text, and no `.` follows it.
pub proof fn lemma_segment_start(s: Seq<char>)
    ensures
        segment_start(s) <= s.len(),
        segment_start(s) > 0 ==> s[segment_start(s) - 1] == '.',
        forall|i: int| segment_start(s) <= i < s.len() ==> s[i] != '.',
        segment_start(s) > 0 <==> s.contains('.'),
    decreases s.len(),
{
    if s.len() == 0 {
    } else if s.last() == '.' {
        assert(s[s.len() - 1] == '.');
    } else {
        let t = s.drop_last();
        lemma_segment_start(t);
        assert forall|i: int| segment_start(s) <= i < s.len() implies s[i] != '.' by {
            if i < t.len() {
                assert(t[i] == s[i]);
            }
        }
        if t.contains('.') {
            let i = choose|i: int| 0 <= i < t.len() && t[i] == '.';
            assert(s[i] == '.');
        }
        if s.contains('.') {
            let i = choose|i: int| 0 <= i < s.len() && s[i] == '.';
            assert(t[i] == '.');
        }
    }
}

/// The last `.`-delimited segment of `s`.
pub fn last_segment(s: &str) -> (segment: &str)
    ensures
        segment@ == last_segment_of(s@),
{
    let len = s.unicode_len();
    let mut start: usize = 0;
    let mut i: usize = 0;
    for c in it: s.chars()
        invariant
            it.seq() == s@,
            i == it.index(),
            len == s@.len(),
            start == segment_start(s@.take(i as int)),
    {
        assert(s@.take(i + 1).drop_last() == s@.take(i as int));
        i += 1;
        if c == '.' {
            start = i;
        }
    }
    proof {
        assert(s@.take(i as int) == s@);
        lemma_segment_start(s@);
    }
    s.substring_char(start, len)
}

/// Whether `s` holds a `.`.
pub fn has_dot(s: &str) -> (found: bool)
    ensures
        found == s@.contains('.'),
{
    let mut found = false;
    for c in it: s.chars()
        invariant
            it.seq() == s@,
            found == s@.take(it.index() as int).contains('.'),
    {
        let ghost i = it.index() as int;
        proof {
            let before = s@.take(i);
            let after = s@.take(i + 1);
            assert(after.drop_last() == before);
            if before.contains('.') {
                let j = choose|j: int| 0 <= j < before.len() && before[j] == '.';
                assert(after[j] == '.');
            }
            if after.contains('.') && c != '.' {
                let j = choose|j: int| 0 <= j < after.len() && after[j] == '.';
                assert(before[j] == '.');
            }
            if c == '.' {
                assert(after[i] == '.');
            }
        }
        if c == '.' {
            found = true;
        }
    }
    proof {
        assert(s@.take(s@.len() as int) == s@);
    }
    found
}

/// The characters of `s`, as a vector.
pub fn chars_of(s: &str) -> (chars: Vec<char>)
    ensures
        chars@ == s@,
{
    let mut chars: Vec<char> = Vec::new();
    for c in it: s.chars()
        invariant
            it.seq() == s@,
            chars@ == s@.take(it.index() as int),
    {
        chars.push(c);
        proof {
            let i = it.index() as int;
            assert(s@.take(i + 1) == s@.take(i).push(c));
        }
    }
    proof {
        assert(s@.take(s@.len() as int) == s@);
    }
    chars
}

/// Whether `c` is an ASCII decimal digit.
pub open spec fn is_digit(c: char) -> bool {
    '0' <= c && c <= '9'
}

/// Whether `s` holds ASCII decimal digits only.
pub open spec fn all_digits(s: Seq<char>) -> bool {
    forall|i: int| 0 <= i < s.len() ==> is_digit(#[trigger] s[i])
}

/// The number that the decimal digits `digits` write.
pub open spec fn decimal(digits: Seq<char>) -> int
    decreases digits.len(),
{
    if digits.len() == 0 {
        0
    } else {
        decimal(digits.drop_last()) * 10 + (digits.last() as int - '0' as int)
    }
}

/// The `i64` that `s` writes in decimal, as `str::parse` reads it: an
/// optional sign, then at least one digit and nothing else, and the number
/// within the range of `i64`.
pub open spec fn parsed_i64(s: Seq<char>) -> Option<i64> {
    let signed = s.len() > 0 && (s[0] == '-' || s[0] == '+');
    let negative = s.len() > 0 && s[0] == '-';
    let digits = if signed {
        s.skip(1)
    } else {
        s
    };
    let value = if negative {
        -decimal(digits)
    } else {
        decimal(digits)
    };
    if digits.len() > 0 && all_digits(digits) && i64::MIN <= value <= i64::MAX {
        Some(value as i64)
    } else {
        None
    }
}

/// More digits never write a smaller number.
pub proof fn lemma_decimal_monotone(digits: Seq<char>, n: int)
    requires
        all_digits(digits),
        0 <= n <= digits.len(),
    ensures
        0 <= decimal(digits.take(n)) <= decimal(digits),
    decreases digits.len() - n,
{
    lemma_decimal_nonnegative(digits.take(n));
    if n < digits.len() {
        lemma_decimal_monotone(digits, n + 1);
        assert(digits.take(n + 1).drop_last() == digits.take(n));
        assert(is_digit(digits.take(n + 1).last()));
    } else {
        assert(digits.take(n) == digits);
    }
}

/// Digits write a number that is not negative.
pub proof fn lemma_decimal_nonnegative(digits: Seq<char>)
    requires
        all_digits(digits),
    ensures
        0 <= decimal(digits),
    decreases digits.len(),
{
    if digits.len() > 0 {
        assert(is_digit(digits.last()));
        assert forall|i: int| 0 <= i < digits.drop_last().len() implies is_digit(
            #[trigger] digits.drop_last()[i],
        ) by {
            assert(digits.drop_last()[i] == digits[i]);
        }
        lemma_decimal_nonnegative(digits.drop_last());
    }
}

/// Reads the `i64` that the characters `from..to` of `chars` write in
/// decimal.
pub fn parse_i64(chars: &Vec<char>, from: usize, to: usize) -> (value: Option<i64>)
    requires
        from <= to <= chars@.len(),
    ensures
        value == parsed_i64(chars@.subrange(from as int, to as int)),
{
    let ghost s = chars@.subrange(from as int, to as int);
    if from == to {
        return None;
    }
    let first = chars[from];
    assert(s[0] == first);
    let negative = first == '-';
    let start = if first == '-' || first == '+' {
        from + 1
    } else {
        from
    };
    let ghost digits = chars@.subrange(start as int, to as int);
    proof {
        if start > from {
            assert(digits == s.skip(1));
        } else {
            assert(digits == s);
        }
    }
    if start == to {
        return None;
    }
    // One more than the largest magnitude that an `i64` can hold.
    let limit: i128 = 0x8000_0000_0000_0000;
    let mut magnitude: i128 = 0;
    let mut i: usize = start;
    while i < to
        invariant
            from <= start <= i <= to,
            start < to,
            to <= chars@.len(),
            s == chars@.subrange(from as int, to as int),
            digits == chars@.subrange(start as int, to as int),
            digits == if s.len() > 0 && (s[0] == '-' || s[0] == '+') {
                s.skip(1)
            } else {
                s
            },
            negative == (s.len() > 0 && s[0] == '-'),
            limit == 0x8000_0000_0000_0000,
            all_digits(digits.take(i - start)),
            magnitude == decimal(digits.take(i - start)),
            0 <= magnitude <= limit,
        decreases to - i,
    {
        let c = chars[i];
        let ghost k = i - start;
        proof {
            assert(digits[k] == c);
            assert(digits.take(k + 1).drop_last() == digits.take(k));
            assert(digits.take(k + 1).last() == c);
        }
        if c < '0' || c > '9' {
            proof {
                assert(!is_digit(digits[k]));
            }
            return None;
        }
        let digit: i128 = (c as u32 - '0' as u32) as i128;
        magnitude = magnitude * 10 + digit;
        proof {
            assert forall|j: int| 0 <= j < k + 1 implies is_digit(
                #[trigger] digits.take(k + 1)[j],
            ) by {
                if j < k {
                    assert(digits.take(k + 1)[j] == digits.take(k)[j]);
                }
            }
        }
        if magnitude > limit {
            proof {
                if all_digits(digits) {
                    lemma_decimal_monotone(digits, k + 1);
                }
            }
            return None;
        }
        i += 1;
    }
    proof {
        assert(digits.take(to - start) == digits);
    }
    if negative {
        Some((-magnitude) as i64)
    } else if magnitude == limit {
        None
    } else {
        Some(magnitude as i64)
    }
}

/// Where the first `separator` of `s` at or behind `from` stands; the
/// length of `s` where there is none.
pub open spec fn next_separator(s: Seq<char>, separator: char, from: int) -> int
    decreases s.len() - from,
{
    if from < 0 || from >= s.len() {
        s.len() as int
    } else if s[from] == separator {
        from
    } else {
        next_separator(s, separator, from + 1)
    }
}

/// The pieces of `s` between its separators, from position `from` on, as
/// `str::split` gives them: a text without separator is one piece, and two
/// separators in a row hold an empty piece.
pub open spec fn pieces_from(s: Seq<char>, separator: char, from: int) -> Seq<Seq<char>>
    decreases s.len() - from,
{
    if from < 0 || from > s.len() {
        Seq::empty()
    } else {
        let end = next_separator(s, separator, from);
        if from <= end < s.len() {
            seq![s.subrange(from, end)] + pieces_from(s, separator, end + 1)
        } else {
            seq![s.subrange(from, s.len() as int)]
        }
    }
}

/// The pieces of `s` between its separators.
pub open spec fn pieces(s: Seq<char>, separator: char) -> Seq<Seq<char>> {
    pieces_from(s, separator, 0)
}

/// Splits `s` at each `separator`.
pub fn split(s: &str, separator: char) -> (parts: Vec<String>)
    ensures
        string_texts(parts@) == pieces(s@, separator),
{
    let chars = chars_of(s);
    let len = chars.len();
    let mut parts: Vec<String> = Vec::new();
    let mut start: usize = 0;
    let mut i: usize = 0;
    while i < len
        invariant
            start <= i <= len,
            len == chars@.len(),
            chars@ == s@,
            next_separator(s@, separator, start as int) == next_separator(
                s@,
                separator,
                i as int,
            ),
            string_texts(parts@) + pieces_from(s@, separator, start as int) == pieces(
                s@,
                separator,
            ),
        decreases len - i,
    {
        if chars[i] == separator {
            let ghost before = string_texts(parts@);
            let ghost piece = s@.subrange(start as int, i as int);
            parts.push(String::from_str(s.substring_char(start, i)));
            proof {
                assert(next_separator(s@, separator, start as int) == i);
                assert(string_texts(parts@) =~= before.push(piece));
                assert(pieces_from(s@, separator, start as int) == seq![piece] + pieces_from(
                    s@,
                    separator,
                    i + 1,
                ));
                assert(before.push(piece) + pieces_from(s@, separator, i + 1) =~= before + (
                seq![piece] + pieces_from(s@, separator, i + 1)));
            }
            start = i + 1;
        }
        i += 1;
    }
    let ghost before = string_texts(parts@);
    let ghost piece = s@.subrange(start as int, len as int);
    parts.push(String::from_str(s.substring_char(start, len)));
    proof {
        assert(next_separator(s@, separator, start as int) == len);
        assert(string_texts(parts@) =~= before.push(piece));
        assert(pieces_from(s@, separator, start as int) == seq![piece]);
        assert(before.push(piece) =~= before + seq![piece]);
    }
    parts
}

} // verus!
