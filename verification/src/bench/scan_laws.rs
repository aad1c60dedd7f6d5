//! What reading words, lines and numbers off a text gives, however the text is
//! put together.

use crate::bench::scan::{
    digits_from, digit_value, is_digit, is_space, line_at, line_end, line_with, lines, lines_from,
    number, space_end, text_end, texts, trimmed, word, word_end, word_from, NumberError,
};
use crate::text::{decimal, digit_char, law_decimal_is_positional};
use vstd::prelude::*;

verus! {

/// All characters of a text are spaces.
pub open spec fn blank(s: Seq<char>) -> bool {
    forall|i: int| 0 <= i < s.len() ==> is_space(#[trigger] s[i])
}

/// A text is one word: it is not empty and has no space in it.
pub open spec fn is_word(s: Seq<char>) -> bool {
    s.len() > 0 && forall|i: int| 0 <= i < s.len() ==> !is_space(#[trigger] s[i])
}

/// A text is empty or starts with a space, so that a word in front of it ends.
pub open spec fn ends_word(s: Seq<char>) -> bool {
    s.len() == 0 || is_space(s[0])
}

/// Spaces are the characters of the Unicode property `White_Space`, given by
/// their code points.
pub proof fn law_spaces_are_white_space(c: char)
    ensures
        is_space(c) <==> {
            let code = c as int;
            ||| 9 <= code <= 13
            ||| code == 32
            ||| code == 133
            ||| code == 160
            ||| code == 5760
            ||| 8192 <= code <= 8202
            ||| code == 8232
            ||| code == 8233
            ||| code == 8239
            ||| code == 8287
            ||| code == 12288
        },
{
}

proof fn lemma_space_end(s: Seq<char>, i: int)
    requires
        0 <= i <= s.len(),
    ensures
        i <= space_end(s, i) <= s.len(),
        forall|j: int| i <= j < space_end(s, i) ==> is_space(#[trigger] s[j]),
        space_end(s, i) < s.len() ==> !is_space(s[space_end(s, i)]),
    decreases s.len() - i,
{
    if i < s.len() && is_space(s[i]) {
        lemma_space_end(s, i + 1);
    }
}

proof fn lemma_text_end(s: Seq<char>, from: int, to: int)
    requires
        0 <= from <= to <= s.len(),
    ensures
        from <= text_end(s, from, to) <= to,
        forall|j: int| text_end(s, from, to) <= j < to ==> is_space(#[trigger] s[j]),
        text_end(s, from, to) > from ==> !is_space(s[text_end(s, from, to) - 1]),
    decreases to - from,
{
    if to > from && is_space(s[to - 1]) {
        lemma_text_end(s, from, to - 1);
    }
}

/// Trimming a text takes spaces off its ends, all of them, and nothing else:
/// whatever stands between blanks, and neither starts nor ends with a space, is
/// what is left.
pub proof fn law_trimming_takes_the_blanks_off(before: Seq<char>, inner: Seq<char>, after: Seq<char>)
    requires
        blank(before),
        blank(after),
        inner.len() > 0 ==> !is_space(inner[0]) && !is_space(inner.last()),
    ensures
        trimmed(before + inner + after) == inner,
{
    let s = before + inner + after;
    let start = space_end(s, 0);
    lemma_space_end(s, 0);
    lemma_text_end(s, start, s.len() as int);
    let end = text_end(s, start, s.len() as int);
    if inner.len() > 0 {
        assert(s[before.len() as int] == inner[0]);
        assert(start <= before.len());
        if start < before.len() {
            assert(s[start] == before[start]);
        }
        assert(start == before.len());
        let last = before.len() + inner.len() - 1;
        assert(s[last] == inner.last());
        assert(end >= last + 1);
        if end > last + 1 {
            assert(s[end - 1] == after[end - 1 - last - 1]);
        }
        assert(trimmed(s) =~= inner);
    } else {
        if start < s.len() {
            assert(s[start] == if start < before.len() {
                before[start]
            } else {
                after[start - before.len()]
            });
        }
        assert(trimmed(s) =~= inner);
    }
}

proof fn lemma_ends_shift(front: Seq<char>, s: Seq<char>, i: int)
    requires
        0 <= i <= s.len(),
    ensures
        space_end(front + s, front.len() + i) == front.len() + space_end(s, i),
        word_end(front + s, front.len() + i) == front.len() + word_end(s, i),
        line_end(front + s, front.len() + i) == front.len() + line_end(s, i),
        i <= space_end(s, i) <= s.len(),
        i <= word_end(s, i) <= s.len(),
        i <= line_end(s, i) <= s.len(),
    decreases s.len() - i,
{
    if i < s.len() {
        lemma_ends_shift(front, s, i + 1);
        assert((front + s)[front.len() + i] == s[i]);
    }
}

proof fn lemma_words_shift(front: Seq<char>, s: Seq<char>, i: int, n: nat)
    requires
        0 <= i <= s.len(),
    ensures
        word_from(front + s, front.len() + i, n) == word_from(s, i, n),
    decreases n,
{
    lemma_ends_shift(front, s, i);
    let start = space_end(s, i);
    if start < s.len() {
        lemma_ends_shift(front, s, start);
        let end = word_end(s, start);
        if n == 0 {
            assert((front + s).subrange(front.len() + start, front.len() + end) =~= s.subrange(
                start,
                end,
            ));
        } else {
            lemma_words_shift(front, s, end, (n - 1) as nat);
        }
    }
}

proof fn lemma_blank_front(gap: Seq<char>, s: Seq<char>, i: int)
    requires
        blank(gap),
        0 <= i <= gap.len(),
        s.len() > 0,
        !is_space(s[0]),
    ensures
        space_end(gap + s, i) == gap.len(),
    decreases gap.len() - i,
{
    if i < gap.len() {
        assert((gap + s)[i] == gap[i]);
        lemma_blank_front(gap, s, i + 1);
    } else {
        assert((gap + s)[i] == s[0]);
    }
}

proof fn lemma_word_front(first: Seq<char>, rest: Seq<char>, i: int)
    requires
        is_word(first),
        ends_word(rest),
        0 <= i <= first.len(),
    ensures
        word_end(first + rest, i) == first.len(),
    decreases first.len() - i,
{
    if i < first.len() {
        assert((first + rest)[i] == first[i]);
        lemma_word_front(first, rest, i + 1);
    } else if rest.len() > 0 {
        assert((first + rest)[i] == rest[0]);
    }
}

/// The words of a text are what stands between its blanks, in order: the first
/// one is the word that the text starts with, after a blank, and every further
/// one is a word of what follows it.
pub proof fn law_words_follow_one_another(
    gap: Seq<char>,
    first: Seq<char>,
    rest: Seq<char>,
    n: nat,
)
    requires
        blank(gap),
        is_word(first),
        ends_word(rest),
    ensures
        word(gap + first + rest, 0) == Some(first),
        word(gap + first + rest, n + 1) == word(rest, n),
{
    let s = gap + first + rest;
    let tail = first + rest;
    assert(s =~= gap + tail);
    assert(tail[0] == first[0]);
    lemma_blank_front(gap, tail, 0);
    lemma_word_front(first, rest, 0);
    lemma_ends_shift(gap, tail, 0);
    assert(space_end(s, 0) == gap.len());
    assert(word_end(s, gap.len() as int) == gap.len() + first.len());
    assert(s.subrange(gap.len() as int, (gap.len() + first.len()) as int) =~= first);
    let front = gap + first;
    assert(s =~= front + rest);
    lemma_words_shift(front, rest, 0, n);
    assert(word_from(s, front.len() as int, n) == word_from(rest, 0, n));
}

/// A blank text has no words.
pub proof fn law_blank_text_has_no_words(gap: Seq<char>, n: nat)
    requires
        blank(gap),
    ensures
        word(gap, n) is None,
{
    lemma_space_end(gap, 0);
}

proof fn lemma_lines_shift(front: Seq<char>, s: Seq<char>, i: int)
    requires
        0 <= i,
    ensures
        lines_from(front + s, front.len() + i) == lines_from(s, i),
    decreases s.len() + 1 - i,
{
    if i < s.len() {
        lemma_ends_shift(front, s, i);
        let end = line_end(s, i);
        lemma_lines_shift(front, s, end + 1);
        if end < s.len() && end > i {
            assert((front + s)[front.len() + end - 1] == s[end - 1]);
        }
        assert(line_at(front + s, front.len() + i) =~= line_at(s, i));
    }
}

proof fn lemma_line_front(line: Seq<char>, rest: Seq<char>, i: int)
    requires
        !line.contains('\n'),
        rest.len() > 0 ==> rest[0] == '\n',
        0 <= i <= line.len(),
    ensures
        line_end(line + rest, i) == line.len(),
    decreases line.len() - i,
{
    if i < line.len() {
        assert((line + rest)[i] == line[i]);
        assert(line.contains(line[i]));
        lemma_line_front(line, rest, i + 1);
    } else if rest.len() > 0 {
        assert((line + rest)[i] == rest[0]);
    }
}

/// The lines of a text are what its line feeds separate, in order, each without
/// the carriage return that its line feed may have; what follows the last line
/// feed is a line unless it is empty.
pub proof fn law_lines_follow_one_another(line: Seq<char>, rest: Seq<char>)
    requires
        !line.contains('\n'),
    ensures
        lines(Seq::<char>::empty()) == Seq::<Seq<char>>::empty(),
        line.len() > 0 ==> lines(line) == seq![line],
        !(line.len() > 0 && line.last() == '\r') ==> lines(line + seq!['\n'] + rest) == seq![line]
            + lines(rest),
        lines(line + seq!['\r', '\n'] + rest) == seq![line] + lines(rest),
{
    assert(lines(Seq::<char>::empty()) =~= Seq::<Seq<char>>::empty());
    if line.len() > 0 {
        lemma_line_front(line, Seq::empty(), 0);
        assert(line + Seq::<char>::empty() =~= line);
        assert(line_at(line, 0) =~= line);
        assert(lines_from(line, line.len() as int + 1) =~= Seq::<Seq<char>>::empty());
        assert(lines(line) =~= seq![line]);
    }
    if !(line.len() > 0 && line.last() == '\r') {
        let feed = seq!['\n'] + rest;
        let s = line + seq!['\n'] + rest;
        assert(s =~= line + feed);
        lemma_line_front(line, feed, 0);
        assert(line_end(s, 0) == line.len());
        if line.len() > 0 {
            assert(s[line.len() - 1] == line.last());
        }
        assert(line_at(s, 0) =~= line);
        let front = line + seq!['\n'];
        assert(s =~= front + rest);
        lemma_lines_shift(front, rest, 0);
        assert(lines(s) =~= seq![line] + lines_from(s, line.len() as int + 1));
    }
    let returned = line + seq!['\r'];
    let feed = seq!['\n'] + rest;
    let s = line + seq!['\r', '\n'] + rest;
    assert(s =~= returned + feed);
    assert(!returned.contains('\n')) by {
        assert forall|i: int| 0 <= i < returned.len() implies returned[i] != '\n' by {
            if i < line.len() {
                assert(returned[i] == line[i]);
                assert(line.contains(line[i]));
            }
        }
    }
    lemma_line_front(returned, feed, 0);
    assert(line_end(s, 0) == returned.len());
    assert(s[returned.len() - 1] == '\r');
    assert(line_at(s, 0) =~= line);
    let front = returned + seq!['\n'];
    assert(s =~= front + rest);
    lemma_lines_shift(front, rest, 0);
    assert(lines(s) =~= seq![line] + lines_from(s, returned.len() as int + 1));
}

/// The line that is found is the first one of the list that starts with the
/// text, and none is found only where there is none.
pub proof fn law_first_fitting_line_is_found(list: Seq<Seq<char>>, prefix: Seq<char>)
    ensures
        match line_with(list, prefix) {
            Some(line) => exists|i: int|
                0 <= i < list.len() && #[trigger] list[i] == line && prefix.is_prefix_of(line)
                    && forall|j: int| 0 <= j < i ==> !prefix.is_prefix_of(#[trigger] list[j]),
            None => forall|i: int| 0 <= i < list.len() ==> !prefix.is_prefix_of(#[trigger] list[i]),
        },
    decreases list.len(),
{
    if list.len() > 0 {
        if prefix.is_prefix_of(list[0]) {
            assert(list[0] == line_with(list, prefix)->0);
        } else {
            let rest = list.skip(1);
            law_first_fitting_line_is_found(rest, prefix);
            match line_with(rest, prefix) {
                Some(line) => {
                    let i = choose|i: int|
                        0 <= i < rest.len() && #[trigger] rest[i] == line && prefix.is_prefix_of(line)
                            && forall|j: int|
                            0 <= j < i ==> !prefix.is_prefix_of(#[trigger] rest[j]);
                    assert(list[i + 1] == line);
                    assert forall|j: int| 0 <= j < i + 1 implies !prefix.is_prefix_of(
                        #[trigger] list[j],
                    ) by {
                        if j > 0 {
                            assert(list[j] == rest[j - 1]);
                        }
                    }
                },
                None => {
                    assert forall|i: int| 0 <= i < list.len() implies !prefix.is_prefix_of(
                        #[trigger] list[i],
                    ) by {
                        if i > 0 {
                            assert(list[i] == rest[i - 1]);
                        }
                    }
                },
            }
        }
    }
}

proof fn lemma_numeral_value(s: Seq<char>, at: int, n: nat)
    requires
        0 <= at <= s.len(),
        decimal(n).is_prefix_of(s.skip(at)),
    ensures
        n <= u64::MAX ==> digits_from(s, at, 0) == digits_from(
            s,
            at + decimal(n).len(),
            n as int,
        ),
        n > u64::MAX ==> digits_from(s, at, 0) == Err::<u64, NumberError>(NumberError::TooLarge),
    decreases n,
{
    let numeral = decimal(n);
    law_decimal_is_positional(n);
    let last = numeral.len() - 1;
    assert(s[at + last] == numeral[last]) by {
        assert(s.skip(at)[last] == s.skip(at).take(numeral.len() as int)[last]);
    }
    if n < 10 {
        assert(is_digit(digit_char(n)) && digit_value(digit_char(n)) == n);
    } else {
        let front = decimal(n / 10);
        assert(front.is_prefix_of(s.skip(at))) by {
            assert(numeral =~= front.push(digit_char(n % 10)));
            assert forall|i: int| 0 <= i < front.len() implies s.skip(at)[i] == front[i] by {
                assert(s.skip(at).take(numeral.len() as int)[i] == numeral[i]);
            }
            assert(s.skip(at).take(front.len() as int) =~= front);
        }
        lemma_numeral_value(s, at, n / 10);
        assert(is_digit(digit_char(n % 10)) && digit_value(digit_char(n % 10)) == n % 10);
    }
}

/// A numeral reads as its number, with or without a plus sign, up to the largest
/// number that fits; a longer one is too large, and an empty text is none.
pub proof fn law_numerals_read_as_their_numbers(n: nat)
    ensures
        n <= u64::MAX ==> number(decimal(n)) == Ok::<u64, NumberError>(n as u64),
        n <= u64::MAX ==> number(seq!['+'] + decimal(n)) == Ok::<u64, NumberError>(n as u64),
        n > u64::MAX ==> number(decimal(n)) == Err::<u64, NumberError>(NumberError::TooLarge),
        number(Seq::<char>::empty()) == Err::<u64, NumberError>(NumberError::Empty),
{
    let plain = decimal(n);
    let signed = seq!['+'] + decimal(n);
    law_decimal_is_positional(n);
    assert(plain[0] != '+') by {
        assert(plain[plain.len() - 1 - (plain.len() - 1)] == plain[0]);
    }
    assert(plain.skip(0) =~= plain);
    assert(plain.take(plain.len() as int) =~= plain);
    lemma_numeral_value(plain, 0, n);
    assert(signed.skip(1) =~= plain);
    lemma_numeral_value(signed, 1, n);
}

/// A text with a character that is no digit is no number, unless that character
/// is a plus sign in front of something.
pub proof fn law_only_digits_make_a_number(s: Seq<char>, i: int)
    requires
        0 <= i < s.len(),
        !('0' <= s[i] <= '9'),
        i == 0 ==> s[0] != '+' || s.len() == 1,
    ensures
        number(s) is Err,
{
    if s.len() > 1 && s[0] == '+' {
        lemma_bad_digit(s, 1, 0, i);
    } else {
        lemma_bad_digit(s, 0, 0, i);
    }
}

proof fn lemma_bad_digit(s: Seq<char>, from: int, value: int, i: int)
    requires
        0 <= from <= i < s.len(),
        !('0' <= s[i] <= '9'),
    ensures
        digits_from(s, from, value) is Err,
    decreases i - from,
{
    if from < i && is_digit(s[from]) && value * 10 + digit_value(s[from]) <= u64::MAX {
        lemma_bad_digit(s, from + 1, value * 10 + digit_value(s[from]), i);
    }
}

/// A list of texts is read text by text.
pub proof fn law_texts_are_read_one_by_one(list: Seq<Vec<char>>, i: int)
    ensures
        texts(list).len() == list.len(),
        0 <= i < list.len() ==> texts(list)[i] == list[i]@,
{
}

} // verus!
