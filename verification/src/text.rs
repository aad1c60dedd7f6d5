//! Plain text building blocks: decimal numbers and message assembly.

use vstd::arithmetic::div_mod::lemma_div_denominator;
use vstd::arithmetic::power::{lemma_pow0, lemma_pow1, lemma_pow_adds, lemma_pow_positive, pow};
use vstd::prelude::*;
use vstd::string::*;

verus! {

/// The character of one decimal digit.
pub open spec fn digit_char(d: nat) -> char {
    if d == 0 { '0' } else if d == 1 { '1' } else if d == 2 { '2' } else if d == 3 { '3' }
    else if d == 4 { '4' } else if d == 5 { '5' } else if d == 6 { '6' } else if d == 7 { '7' }
    else if d == 8 { '8' } else { '9' }
}

/// The decimal numeral of `n`, without sign or leading zeros.
pub open spec fn decimal(n: nat) -> Seq<char>
    decreases n,
{
    if n < 10 {
        seq![digit_char(n)]
    } else {
        decimal(n / 10).push(digit_char(n % 10))
    }
}

/// The decimal numeral of a signed number.
pub open spec fn signed_decimal(n: int) -> Seq<char> {
    if n < 0 {
        seq!['-'] + decimal((-n) as nat)
    } else {
        decimal(n as nat)
    }
}

fn digit_str(d: u64) -> (s: &'static str)
    requires
        d < 10,
    ensures
        s@ == seq![digit_char(d as nat)],
{
    proof {
        reveal_strlit("0");
        reveal_strlit("1");
        reveal_strlit("2");
        reveal_strlit("3");
        reveal_strlit("4");
        reveal_strlit("5");
        reveal_strlit("6");
        reveal_strlit("7");
        reveal_strlit("8");
        reveal_strlit("9");
    }
    let s = if d == 0 {
        "0"
    } else if d == 1 {
        "1"
    } else if d == 2 {
        "2"
    } else if d == 3 {
        "3"
    } else if d == 4 {
        "4"
    } else if d == 5 {
        "5"
    } else if d == 6 {
        "6"
    } else if d == 7 {
        "7"
    } else if d == 8 {
        "8"
    } else {
        "9"
    };
    assert(s@ =~= seq![digit_char(d as nat)]);
    s
}

/// Append the decimal numeral of `n`.
pub fn push_decimal(out: &mut String, n: u64)
    ensures
        final(out)@ == old(out)@ + decimal(n as nat),
    decreases n,
{
    if n >= 10 {
        push_decimal(out, n / 10);
    }
    out.append(digit_str(n % 10));
    assert(old(out)@ + decimal(n as nat) =~= if n >= 10 {
        old(out)@ + decimal((n / 10) as nat) + seq![digit_char((n % 10) as nat)]
    } else {
        old(out)@ + seq![digit_char((n % 10) as nat)]
    });
}

/// Append the decimal numeral of a wide number.
pub fn push_wide(out: &mut String, n: u128)
    ensures
        final(out)@ == old(out)@ + decimal(n as nat),
    decreases n,
{
    if n >= 10 {
        push_wide(out, n / 10);
    }
    out.append(digit_str((n % 10) as u64));
    assert(old(out)@ + decimal(n as nat) =~= if n >= 10 {
        old(out)@ + decimal((n / 10) as nat) + seq![digit_char((n % 10) as nat)]
    } else {
        old(out)@ + seq![digit_char((n % 10) as nat)]
    });
}

/// Append the decimal numeral of a signed number.
pub fn push_signed(out: &mut String, n: i128)
    ensures
        final(out)@ == old(out)@ + signed_decimal(n as int),
{
    if n < 0 {
        proof {
            reveal_strlit("-");
        }
        out.append("-");
        let magnitude: u128 = (-(n + 1)) as u128 + 1;
        push_wide(out, magnitude);
        assert(old(out)@ + "-"@ + decimal(magnitude as nat) =~= old(out)@ + signed_decimal(n as int));
    } else {
        push_wide(out, n as u128);
    }
}

/// The character of one lower-case hexadecimal digit.
pub open spec fn hex_char(d: nat) -> char {
    if d < 10 {
        digit_char(d)
    } else if d == 10 {
        'a'
    } else if d == 11 {
        'b'
    } else if d == 12 {
        'c'
    } else if d == 13 {
        'd'
    } else if d == 14 {
        'e'
    } else {
        'f'
    }
}

/// The last `width` hexadecimal digits of a number.
pub open spec fn hex_digits(n: nat, width: nat) -> Seq<char>
    decreases width,
{
    if width == 0 {
        Seq::empty()
    } else {
        hex_digits(n / 16, (width - 1) as nat).push(hex_char(n % 16))
    }
}

fn hex_str(d: u64) -> (s: &'static str)
    requires
        d < 16,
    ensures
        s@ == seq![hex_char(d as nat)],
{
    if d < 10 {
        return digit_str(d);
    }
    proof {
        reveal_strlit("a");
        reveal_strlit("b");
        reveal_strlit("c");
        reveal_strlit("d");
        reveal_strlit("e");
        reveal_strlit("f");
    }
    let s = if d == 10 {
        "a"
    } else if d == 11 {
        "b"
    } else if d == 12 {
        "c"
    } else if d == 13 {
        "d"
    } else if d == 14 {
        "e"
    } else {
        "f"
    };
    assert(s@ =~= seq![hex_char(d as nat)]);
    s
}

/// Append the last `width` hexadecimal digits of a number.
pub fn push_hex(out: &mut String, n: u64, width: u64)
    ensures
        final(out)@ == old(out)@ + hex_digits(n as nat, width as nat),
    decreases width,
{
    if width == 0 {
        assert(old(out)@ + hex_digits(n as nat, 0) =~= old(out)@);
    } else {
        push_hex(out, n / 16, width - 1);
        out.append(hex_str(n % 16));
        assert(old(out)@ + hex_digits(n as nat, width as nat) =~= old(out)@ + hex_digits(
            (n / 16) as nat,
            (width - 1) as nat,
        ) + seq![hex_char((n % 16) as nat)]);
    }
}

/// Render a fingerprint as sixteen hexadecimal digits.
pub fn fingerprint_text(fingerprint: u64) -> (text: String)
    ensures
        text@ == hex_digits(fingerprint as nat, 16),
{
    let mut text = String::new();
    push_hex(&mut text, fingerprint, 16);
    assert(text@ =~= hex_digits(fingerprint as nat, 16));
    text
}

/// The number of bytes that a text takes.
pub open spec fn utf8_len(text: Seq<char>) -> nat {
    vstd::utf8::encode_utf8(text).len()
}

/// Count the bytes of a text.
pub fn byte_len(text: &str) -> (len: usize)
    ensures
        len == utf8_len(text@),
{
    text.as_bytes().len()
}

/// Whether a text contains a character.
pub fn has_char(text: &str, wanted: char) -> (found: bool)
    ensures
        found == text@.contains(wanted),
{
    let mut found = false;
    for c in it: text.chars()
        invariant
            it.seq() == text@,
            found <==> exists|i: int| 0 <= i < it.index() && text@[i] == wanted,
    {
        if c == wanted {
            assert(text@[it.index()] == wanted);
            found = true;
        }
    }
    found
}

/// Whether a text starts with a character.
pub fn starts_with_char(text: &str, wanted: char) -> (found: bool)
    ensures
        found == (text@.len() > 0 && text@[0] == wanted),
{
    if text.unicode_len() == 0 {
        return false;
    }
    text.get_char(0) == wanted
}

/// A part of a text stands at a place.
pub open spec fn stands_at(text: Seq<char>, at: int, part: Seq<char>) -> bool {
    0 <= at <= at + part.len() <= text.len() && text.subrange(at, at + part.len()) == part
}

/// A text has a part in it.
pub open spec fn shows(text: Seq<char>, part: Seq<char>) -> bool {
    exists|at: int| stands_at(text, at, part)
}

/// A text has one part in it and, behind that, another one.
pub open spec fn shows_before(text: Seq<char>, first: Seq<char>, second: Seq<char>) -> bool {
    exists|i: int, j: int| #[trigger]
        stands_at(text, i, first) && #[trigger] stands_at(text, j, second) && i + first.len() <= j
}

/// A decimal numeral is positional: counted from its end, the digit at place
/// `k` is that of `n / 10^k`, the numeral is long enough for the number, and it
/// has no digit more than that.
pub proof fn law_decimal_is_positional(n: nat)
    ensures
        ({
            let len = decimal(n).len();
            &&& len > 0
            &&& n < pow(10, len)
            &&& len > 1 ==> n >= pow(10, (len - 1) as nat)
            &&& forall|k: int|
                0 <= k < len ==> (#[trigger] decimal(n)[len - 1 - k]) as int == '0' as int + n as int
                    / pow(10, k as nat) % 10
        }),
    decreases n,
{
    lemma_pow0(10);
    lemma_pow1(10);
    if n >= 10 {
        let rest = n / 10;
        law_decimal_is_positional(rest);
        let shorter = decimal(rest).len();
        let len = decimal(n).len();
        assert(len == shorter + 1);
        lemma_pow_adds(10, 1, shorter);
        lemma_pow_adds(10, 1, (shorter - 1) as nat);
        assert(n == 10 * rest + n % 10);
        assert forall|k: int| 0 <= k < len implies (#[trigger] decimal(n)[len - 1 - k]) as int
            == '0' as int + n as int / pow(10, k as nat) % 10 by {
            if k > 0 {
                assert(decimal(n)[len - 1 - k] == decimal(rest)[shorter - 1 - (k - 1)]);
                lemma_pow_adds(10, 1, (k - 1) as nat);
                lemma_pow_positive(10, (k - 1) as nat);
                lemma_div_denominator(n as int, 10, pow(10, (k - 1) as nat));
            }
        }
    } else {
        assert(decimal(n)[0] as int == '0' as int + n);
    }
}

/// A negative number is a minus sign before the numeral of its magnitude, and
/// any other number is its numeral.
pub proof fn law_signed_numeral_shows_the_sign(n: int)
    ensures
        n >= 0 ==> signed_decimal(n) == decimal(n as nat),
        n < 0 ==> signed_decimal(n)[0] == '-' && signed_decimal(n).skip(1) == decimal((-n) as nat),
{
    if n < 0 {
        assert(signed_decimal(n).skip(1) =~= decimal((-n) as nat));
    }
}

/// Hexadecimal digits are positional: counted from the end, the digit at place
/// `k` is that of `n / 16^k`, from `0` to `9` and on from `a` to `f`.
pub proof fn law_hex_digits_are_positional(n: nat, width: nat)
    ensures
        hex_digits(n, width).len() == width,
        forall|k: int|
            0 <= k < width ==> {
                let digit = n as int / pow(16, k as nat) % 16;
                (#[trigger] hex_digits(n, width)[width - 1 - k]) as int == if digit < 10 {
                    '0' as int + digit
                } else {
                    'a' as int + digit - 10
                }
            },
    decreases width,
{
    lemma_pow0(16);
    lemma_pow1(16);
    if width > 0 {
        let rest = n / 16;
        law_hex_digits_are_positional(rest, (width - 1) as nat);
        assert forall|k: int| 0 <= k < width implies {
            let digit = n as int / pow(16, k as nat) % 16;
            (#[trigger] hex_digits(n, width)[width - 1 - k]) as int == if digit < 10 {
                '0' as int + digit
            } else {
                'a' as int + digit - 10
            }
        } by {
            if k > 0 {
                assert(hex_digits(n, width)[width - 1 - k] == hex_digits(
                    rest,
                    (width - 1) as nat,
                )[width - 1 - 1 - (k - 1)]);
                lemma_pow_adds(16, 1, (k - 1) as nat);
                lemma_pow_positive(16, (k - 1) as nat);
                lemma_div_denominator(n as int, 16, pow(16, (k - 1) as nat));
            }
        }
    }
}

/// The bytes of a text add up character by character: one for each of the first
/// 128 characters, then two, three or four.
pub proof fn law_characters_take_one_to_four_bytes(first: char, rest: Seq<char>)
    ensures
        utf8_len(Seq::empty()) == 0,
        utf8_len(seq![first] + rest) == utf8_len(rest) + if (first as int) < 0x80 {
            1int
        } else if (first as int) < 0x800 {
            2
        } else if (first as int) < 0x1_0000 {
            3
        } else {
            4
        },
{
    let text = seq![first] + rest;
    assert(text.drop_first() =~= rest);
    assert(text[0] == first);
}

} // verus!
