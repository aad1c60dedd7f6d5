//! Reading words, lines and numbers off plain text.

use crate::text::{decimal, digit_char};
use vstd::prelude::*;
use vstd::string::*;

verus! {

/// The characters that separate words: the Unicode property `White_Space`.
pub open spec fn is_space(c: char) -> bool {
    ||| '\u{9}' <= c <= '\u{d}'
    ||| c == ' '
    ||| c == '\u{85}'
    ||| c == '\u{a0}'
    ||| c == '\u{1680}'
    ||| '\u{2000}' <= c <= '\u{200a}'
    ||| c == '\u{2028}'
    ||| c == '\u{2029}'
    ||| c == '\u{202f}'
    ||| c == '\u{205f}'
    ||| c == '\u{3000}'
}

/// Whether a character separates words.
pub fn space(c: char) -> (yes: bool)
    ensures
        yes == is_space(c),
{
    ('\u{9}' <= c && c <= '\u{d}') || c == ' ' || c == '\u{85}' || c == '\u{a0}' || c == '\u{1680}'
        || ('\u{2000}' <= c && c <= '\u{200a}') || c == '\u{2028}' || c == '\u{2029}' || c
        == '\u{202f}' || c == '\u{205f}' || c == '\u{3000}'
}

/// The characters of a text.
pub fn chars_of(text: &str) -> (chars: Vec<char>)
    ensures
        chars@ == text@,
{
    let mut chars: Vec<char> = Vec::new();
    for c in it: text.chars()
        invariant
            it.seq() == text@,
            chars@ == text@.take(it.index()),
            it.index() == it.seq().len() ==> chars@ == text@,
    {
        assert(text@.take(it.index() + 1) =~= text@.take(it.index()).push(c));
        chars.push(c);
        assert(it.index() + 1 == text@.len() ==> text@.take(it.index() + 1) =~= text@);
    }
    chars
}

/// Calls `String::from_iter` on the characters.
///
/// Claimed of it: the string holds the characters in order, as the
/// documentation of `FromIterator<&char>` for `String` has it.
#[verifier::external_body]
pub(crate) fn text_of(chars: &Vec<char>) -> (text: String)
    ensures
        text@ == chars@,
{
    String::from_iter(chars.iter())
}

/// Whether two texts are the same.
pub fn same_text(left: &str, right: &str) -> (same: bool)
    ensures
        same == (left@ == right@),
{
    left.to_owned() == right.to_owned()
}

/// The place of the first character from `i` on that is no space.
pub open spec fn space_end(s: Seq<char>, i: int) -> int
    decreases s.len() - i,
{
    if i >= s.len() {
        s.len() as int
    } else if is_space(s[i]) {
        space_end(s, i + 1)
    } else {
        i
    }
}

/// The place of the first space from `i` on.
pub open spec fn word_end(s: Seq<char>, i: int) -> int
    decreases s.len() - i,
{
    if i >= s.len() {
        s.len() as int
    } else if is_space(s[i]) {
        i
    } else {
        word_end(s, i + 1)
    }
}

proof fn lemma_ends(s: Seq<char>, i: int)
    requires
        0 <= i <= s.len(),
    ensures
        i <= space_end(s, i) <= s.len(),
        i <= word_end(s, i) <= s.len(),
    decreases s.len() - i,
{
    if i < s.len() {
        lemma_ends(s, i + 1);
    }
}

/// The word number `n`, counted from zero, from the place `from` on.
pub open spec fn word_from(s: Seq<char>, from: int, n: nat) -> Option<Seq<char>>
    decreases n,
{
    let start = space_end(s, from);
    if start >= s.len() {
        None
    } else if n == 0 {
        Some(s.subrange(start, word_end(s, start)))
    } else {
        word_from(s, word_end(s, start), (n - 1) as nat)
    }
}

/// The word number `n`, counted from zero.
pub open spec fn word(s: Seq<char>, n: nat) -> Option<Seq<char>> {
    word_from(s, 0, n)
}

fn find_space_end(s: &Vec<char>, from: usize) -> (end: usize)
    requires
        from <= s@.len(),
    ensures
        end == space_end(s@, from as int),
        from <= end <= s@.len(),
{
    let mut i: usize = from;
    while i < s.len() && space(s[i])
        invariant
            from <= i <= s@.len(),
            space_end(s@, i as int) == space_end(s@, from as int),
        decreases s@.len() - i,
    {
        i += 1;
    }
    i
}

fn find_word_end(s: &Vec<char>, from: usize) -> (end: usize)
    requires
        from <= s@.len(),
    ensures
        end == word_end(s@, from as int),
        from <= end <= s@.len(),
{
    let mut i: usize = from;
    while i < s.len() && !space(s[i])
        invariant
            from <= i <= s@.len(),
            word_end(s@, i as int) == word_end(s@, from as int),
        decreases s@.len() - i,
    {
        i += 1;
    }
    i
}

/// Copy a part of a text.
pub(crate) fn part(s: &Vec<char>, from: usize, to: usize) -> (out: Vec<char>)
    requires
        from <= to <= s@.len(),
    ensures
        out@ == s@.subrange(from as int, to as int),
{
    let mut out: Vec<char> = Vec::new();
    let mut i: usize = from;
    while i < to
        invariant
            from <= i <= to <= s@.len(),
            out@ == s@.subrange(from as int, i as int),
        decreases to - i,
    {
        out.push(s[i]);
        assert(s@.subrange(from as int, i + 1) =~= s@.subrange(from as int, i as int).push(
            s@[i as int],
        ));
        i += 1;
    }
    out
}

/// Find the word number `n`, counted from zero.
pub fn find_word(s: &Vec<char>, n: usize) -> (found: Option<Vec<char>>)
    ensures
        match found {
            Some(found) => word(s@, n as nat) == Some(found@),
            None => word(s@, n as nat) is None,
        },
{
    let mut from: usize = 0;
    let mut left: usize = n;
    loop
        invariant
            from <= s@.len(),
            word(s@, n as nat) == word_from(s@, from as int, left as nat),
        decreases left,
    {
        let start: usize = find_space_end(s, from);
        if start >= s.len() {
            return None;
        }
        let end: usize = find_word_end(s, start);
        if left == 0 {
            return Some(part(s, start, end));
        }
        from = end;
        left = left - 1;
    }
}

/// The place of the first line feed from `i` on.
pub open spec fn line_end(s: Seq<char>, i: int) -> int
    decreases s.len() - i,
{
    if i >= s.len() {
        s.len() as int
    } else if s[i] == '\n' {
        i
    } else {
        line_end(s, i + 1)
    }
}

proof fn lemma_line_end(s: Seq<char>, i: int)
    requires
        0 <= i <= s.len(),
    ensures
        i <= line_end(s, i) <= s.len(),
    decreases s.len() - i,
{
    if i < s.len() {
        lemma_line_end(s, i + 1);
    }
}

/// The line that starts at `from`. A carriage return goes with the line feed
/// that follows it.
pub open spec fn line_at(s: Seq<char>, from: int) -> Seq<char> {
    let end = line_end(s, from);
    if end < s.len() && end > from && s[end - 1] == '\r' {
        s.subrange(from, end - 1)
    } else {
        s.subrange(from, end)
    }
}

/// The lines from the place `from` on. The last line ending is optional.
pub open spec fn lines_from(s: Seq<char>, from: int) -> Seq<Seq<char>>
    decreases s.len() + 1 - from,
    when 0 <= from
    via lines_from_decreases
{
    if from >= s.len() {
        Seq::empty()
    } else {
        seq![line_at(s, from)] + lines_from(s, line_end(s, from) + 1)
    }
}

#[via_fn]
proof fn lines_from_decreases(s: Seq<char>, from: int) {
    if 0 <= from <= s.len() {
        lemma_line_end(s, from);
    }
}

/// The lines of a text.
pub open spec fn lines(s: Seq<char>) -> Seq<Seq<char>> {
    lines_from(s, 0)
}

/// The texts of a list.
pub open spec fn texts(list: Seq<Vec<char>>) -> Seq<Seq<char>> {
    Seq::new(list.len(), |i: int| list[i]@)
}

/// Split a text into its lines.
pub fn split_lines(s: &Vec<char>) -> (list: Vec<Vec<char>>)
    ensures
        texts(list@) == lines(s@),
{
    let mut list: Vec<Vec<char>> = Vec::new();
    let mut from: usize = 0;
    assert(texts(list@) + lines_from(s@, 0) =~= lines(s@));
    while from < s.len()
        invariant
            from <= s@.len(),
            texts(list@) + lines_from(s@, from as int) == lines(s@),
        decreases s@.len() - from,
    {
        let mut end: usize = from;
        while end < s.len() && s[end] != '\n'
            invariant
                from <= end <= s@.len(),
                line_end(s@, end as int) == line_end(s@, from as int),
            decreases s@.len() - end,
        {
            end += 1;
        }
        let stop: usize = if end < s.len() && end > from && s[end - 1] == '\r' {
            end - 1
        } else {
            end
        };
        let line = part(s, from, stop);
        let ghost before = texts(list@);
        list.push(line);
        assert(texts(list@) =~= before + seq![line@]);
        assert(before + (seq![line@] + lines_from(s@, end + 1)) =~= texts(list@) + lines_from(
            s@,
            end + 1,
        ));
        from = if end < s.len() {
            end + 1
        } else {
            end
        };
        assert(lines_from(s@, end + 1) =~= lines_from(s@, from as int));
    }
    assert(texts(list@) + lines_from(s@, from as int) =~= texts(list@));
    list
}

/// Whether a text starts with another one.
pub fn has_prefix(s: &Vec<char>, prefix: &str) -> (yes: bool)
    ensures
        yes == prefix@.is_prefix_of(s@),
{
    let wanted = chars_of(prefix);
    if wanted.len() > s.len() {
        return false;
    }
    let mut i: usize = 0;
    while i < wanted.len()
        invariant
            i <= wanted.len() <= s.len(),
            wanted@ == prefix@,
            forall|j: int| 0 <= j < i ==> wanted@[j] == s@[j],
        decreases wanted.len() - i,
    {
        if wanted[i] != s[i] {
            assert(s@.take(wanted@.len() as int)[i as int] != wanted@[i as int]);
            return false;
        }
        i += 1;
    }
    assert(s@.take(wanted@.len() as int) =~= wanted@);
    true
}

/// The first line that starts with a text.
pub open spec fn line_with(list: Seq<Seq<char>>, prefix: Seq<char>) -> Option<Seq<char>>
    decreases list.len(),
{
    if list.len() == 0 {
        None
    } else if prefix.is_prefix_of(list[0]) {
        Some(list[0])
    } else {
        line_with(list.skip(1), prefix)
    }
}

pub(crate) proof fn lemma_line_has_prefix(list: Seq<Seq<char>>, prefix: Seq<char>)
    ensures
        match line_with(list, prefix) {
            Some(line) => prefix.is_prefix_of(line),
            None => true,
        },
    decreases list.len(),
{
    if list.len() > 0 {
        lemma_line_has_prefix(list.skip(1), prefix);
    }
}

/// Find the first line of a text that starts with another text.
pub fn find_line(text: &str, prefix: &str) -> (found: Option<Vec<char>>)
    ensures
        match found {
            Some(found) => line_with(lines(text@), prefix@) == Some(found@),
            None => line_with(lines(text@), prefix@) is None,
        },
{
    let list = split_lines(&chars_of(text));
    let ghost all = lines(text@);
    let mut i: usize = 0;
    assert(all.skip(0) =~= all);
    while i < list.len()
        invariant
            i <= list.len(),
            all == lines(text@),
            texts(list@) == all,
            line_with(all, prefix@) == line_with(all.skip(i as int), prefix@),
        decreases list.len() - i,
    {
        assert(all.skip(i as int)[0] == list@[i as int]@);
        if has_prefix(&list[i], prefix) {
            let line = part(&list[i], 0, list[i].len());
            assert(line@ =~= list@[i as int]@);
            return Some(line);
        }
        assert(all.skip(i as int).skip(1) =~= all.skip(i + 1));
        i += 1;
    }
    None
}

/// The text without the spaces at its ends.
pub open spec fn trimmed(s: Seq<char>) -> Seq<char> {
    let start = space_end(s, 0);
    s.subrange(start, text_end(s, start, s.len() as int))
}

/// The end of what is left in front of `to` once the spaces there are dropped,
/// no further back than `from`.
pub open spec fn text_end(s: Seq<char>, from: int, to: int) -> int
    decreases to - from,
{
    if to <= from {
        from
    } else if is_space(s[to - 1]) {
        text_end(s, from, to - 1)
    } else {
        to
    }
}

/// Drop the spaces at the ends of a text.
pub fn trim(s: &Vec<char>) -> (out: Vec<char>)
    ensures
        out@ == trimmed(s@),
{
    let start: usize = find_space_end(s, 0);
    let mut end: usize = s.len();
    while end > start && space(s[end - 1])
        invariant
            start <= end <= s@.len(),
            text_end(s@, start as int, end as int) == text_end(
                s@,
                start as int,
                s@.len() as int,
            ),
        decreases end,
    {
        end = end - 1;
    }
    part(s, start, end)
}

/// Why a text is no number.
#[derive(Clone, Copy, Debug, PartialEq, Eq, Structural)]
pub enum NumberError {
    /// There is nothing to read.
    Empty,
    /// A character is no digit.
    InvalidDigit,
    /// The number does not fit.
    TooLarge,
}

impl NumberError {
    /// The text reported for this error.
    pub open spec fn text(self) -> Seq<char> {
        match self {
            NumberError::Empty => "cannot parse integer from empty string"@,
            NumberError::InvalidDigit => "invalid digit found in string"@,
            NumberError::TooLarge => "number too large to fit in target type"@,
        }
    }

    /// Render this error for a caller.
    pub fn message(&self) -> (text: &'static str)
        ensures
            text@ == self.text(),
    {
        match self {
            NumberError::Empty => "cannot parse integer from empty string",
            NumberError::InvalidDigit => "invalid digit found in string",
            NumberError::TooLarge => "number too large to fit in target type",
        }
    }
}

/// The value of a decimal digit.
pub open spec fn digit_value(c: char) -> int {
    c as int - '0' as int
}

/// Whether a character is a decimal digit.
pub open spec fn is_digit(c: char) -> bool {
    '0' <= c <= '9'
}

/// The number that starts with the digits of `value` and goes on with those
/// from `i` on. The first problem from the left is reported.
pub open spec fn digits_from(s: Seq<char>, i: int, value: int) -> Result<u64, NumberError>
    decreases s.len() - i,
{
    if i >= s.len() {
        Ok(value as u64)
    } else if !is_digit(s[i]) {
        Err(NumberError::InvalidDigit)
    } else if value * 10 + digit_value(s[i]) > u64::MAX {
        Err(NumberError::TooLarge)
    } else {
        digits_from(s, i + 1, value * 10 + digit_value(s[i]))
    }
}

/// The number that a text stands for: decimal digits, with an optional plus
/// sign in front.
pub open spec fn number(s: Seq<char>) -> Result<u64, NumberError> {
    if s.len() == 0 {
        Err(NumberError::Empty)
    } else if s.len() > 1 && s[0] == '+' {
        digits_from(s, 1, 0)
    } else {
        digits_from(s, 0, 0)
    }
}

/// Read a number off a text.
pub fn parse_number(s: &Vec<char>) -> (result: Result<u64, NumberError>)
    ensures
        result == number(s@),
{
    if s.len() == 0 {
        return Err(NumberError::Empty);
    }
    let mut i: usize = if s.len() > 1 && s[0] == '+' {
        1
    } else {
        0
    };
    let mut value: u64 = 0;
    while i < s.len()
        invariant
            i <= s@.len(),
            number(s@) == digits_from(s@, i as int, value as int),
        decreases s@.len() - i,
    {
        let c: char = s[i];
        if c < '0' || c > '9' {
            return Err(NumberError::InvalidDigit);
        }
        let digit: u64 = c as u64 - '0' as u64;
        let shifted: u64 = match value.checked_mul(10) {
            Some(shifted) => shifted,
            None => return Err(NumberError::TooLarge),
        };
        value = match shifted.checked_add(digit) {
            Some(sum) => sum,
            None => return Err(NumberError::TooLarge),
        };
        i += 1;
    }
    Ok(value)
}

/// Reading off the decimal numeral of a number gives the number back.
pub proof fn law_number_reads_decimal(n: u64)
    ensures
        number(decimal(n as nat)) == Ok::<u64, NumberError>(n),
{
    let s = decimal(n as nat);
    lemma_decimal_first(n as nat);
    lemma_digits_of_prefix(s, n as nat);
}

proof fn lemma_digit(d: nat)
    requires
        d < 10,
    ensures
        is_digit(digit_char(d)),
        digit_value(digit_char(d)) == d,
{
}

proof fn lemma_decimal_first(n: nat)
    ensures
        decimal(n).len() > 0,
        is_digit(decimal(n)[0]),
    decreases n,
{
    if n < 10 {
        lemma_digit(n);
    } else {
        lemma_decimal_first(n / 10);
    }
}

proof fn lemma_digits_of_prefix(s: Seq<char>, n: nat)
    requires
        n <= u64::MAX,
        decimal(n).is_prefix_of(s),
    ensures
        digits_from(s, 0, 0) == digits_from(s, decimal(n).len() as int, n as int),
    decreases n,
{
    let numeral = decimal(n);
    let at = numeral.len() - 1;
    lemma_decimal_first(n);
    assert(s[at] == numeral[at]) by {
        assert(s.take(numeral.len() as int)[at] == numeral[at]);
    }
    if n < 10 {
        lemma_digit(n);
    } else {
        let front = decimal(n / 10);
        assert(front.is_prefix_of(s)) by {
            assert(numeral =~= front.push(digit_char(n % 10)));
            assert forall|i: int| 0 <= i < front.len() implies s[i] == front[i] by {
                assert(s.take(numeral.len() as int)[i] == numeral[i]);
            }
            assert(s.take(front.len() as int) =~= front);
        }
        lemma_digits_of_prefix(s, n / 10);
        lemma_digit(n % 10);
    }
}

} // verus!
