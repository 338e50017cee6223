//! Six-digit pairing codes, and numbers as decimal text.

use vstd::prelude::*;

verus! {

/// Smallest pairing code.
pub const PIN_MIN: u32 = 100_000;

/// Largest pairing code.
pub const PIN_MAX: u32 = 999_999;

/// The pairing code derived from a millisecond clock reading.
pub open spec fn pin_of(now_millis: nat) -> nat {
    now_millis % 900_000 + 100_000
}

/// The character of one decimal digit.
pub open spec fn digit_char(d: nat) -> char {
    if d == 0 {
        '0'
    } else if d == 1 {
        '1'
    } else if d == 2 {
        '2'
    } else if d == 3 {
        '3'
    } else if d == 4 {
        '4'
    } else if d == 5 {
        '5'
    } else if d == 6 {
        '6'
    } else if d == 7 {
        '7'
    } else if d == 8 {
        '8'
    } else {
        '9'
    }
}

/// The value of a decimal digit character; 10 for any other character.
pub open spec fn digit_value(c: char) -> nat {
    if c == '0' {
        0
    } else if c == '1' {
        1
    } else if c == '2' {
        2
    } else if c == '3' {
        3
    } else if c == '4' {
        4
    } else if c == '5' {
        5
    } else if c == '6' {
        6
    } else if c == '7' {
        7
    } else if c == '8' {
        8
    } else if c == '9' {
        9
    } else {
        10
    }
}

/// Whether every character of `s` is a decimal digit.
pub open spec fn all_digits(s: Seq<char>) -> bool {
    forall|i: int| 0 <= i < s.len() ==> digit_value(#[trigger] s[i]) < 10
}

/// The number that a string of decimal digits writes, most significant first.
pub open spec fn decimal_value(s: Seq<char>) -> nat
    decreases s.len(),
{
    if s.len() == 0 {
        0
    } else {
        decimal_value(s.drop_last()) * 10 + digit_value(s.last())
    }
}

/// The six decimal digits of a pairing code, most significant first.
pub open spec fn pin_text(pin: nat) -> Seq<char> {
    seq![
        digit_char(pin / 100_000 % 10),
        digit_char(pin / 10_000 % 10),
        digit_char(pin / 1_000 % 10),
        digit_char(pin / 100 % 10),
        digit_char(pin / 10 % 10),
        digit_char(pin % 10),
    ]
}

/// Derives the pairing code from a millisecond clock reading.
pub fn pin_from_millis(now_millis: u128) -> (pin: u32)
    ensures
        pin as nat == pin_of(now_millis as nat),
        PIN_MIN <= pin <= PIN_MAX,
{
    let reduced: u128 = now_millis % 900_000;
    (reduced + 100_000) as u32
}

/// The text of one decimal digit.
pub fn digit_str(d: u32) -> (s: &'static str)
    requires
        d < 10,
    ensures
        s@ == seq![digit_char(d as nat)],
{
    proof {
        reveal_strlit("0");
        reveal_strlit("1");
        reveal_strlit("2");
        reveal_strlit("3");
        reveal_strlit("4");
        reveal_strlit("5");
        reveal_strlit("6");
        reveal_strlit("7");
        reveal_strlit("8");
        reveal_strlit("9");
    }
    let s: &'static str = if d == 0 {
        "0"
    } else if d == 1 {
        "1"
    } else if d == 2 {
        "2"
    } else if d == 3 {
        "3"
    } else if d == 4 {
        "4"
    } else if d == 5 {
        "5"
    } else if d == 6 {
        "6"
    } else if d == 7 {
        "7"
    } else if d == 8 {
        "8"
    } else {
        "9"
    };
    assert(s@ =~= seq![digit_char(d as nat)]);
    s
}

/// Writes a pairing code as its six decimal digits.
pub fn pin_to_string(pin: u32) -> (text: String)
    ensures
        text@ == pin_text(pin as nat),
{
    let mut text = String::new();
    text.append(digit_str(pin / 100_000 % 10));
    text.append(digit_str(pin / 10_000 % 10));
    text.append(digit_str(pin / 1_000 % 10));
    text.append(digit_str(pin / 100 % 10));
    text.append(digit_str(pin / 10 % 10));
    text.append(digit_str(pin % 10));
    assert(text@ =~= pin_text(pin as nat));
    text
}

/// The decimal digits of a number, most significant first, without leading
/// zeros.
pub open spec fn decimal_text(n: nat) -> Seq<char>
    decreases n,
{
    if n < 10 {
        seq![digit_char(n)]
    } else {
        decimal_text(n / 10).push(digit_char(n % 10))
    }
}

/// The decimal text of a whole number, with a minus sign where it is
/// negative.
pub open spec fn signed_text(v: int) -> Seq<char> {
    if v < 0 {
        seq!['-'] + decimal_text((-v) as nat)
    } else {
        decimal_text(v as nat)
    }
}

/// Appends the decimal digits of `n` to `text`.
pub fn push_decimal(text: &mut String, n: u32)
    ensures
        final(text)@ == old(text)@ + decimal_text(n as nat),
    decreases n,
{
    if n >= 10 {
        push_decimal(text, n / 10);
    }
    text.append(digit_str(n % 10));
    assert(final(text)@ =~= old(text)@ + decimal_text(n as nat));
}

/// Writes a whole number in decimal.
pub fn signed_to_string(v: i32) -> (text: String)
    ensures
        text@ == signed_text(v as int),
{
    let mut text = String::new();
    if v < 0 {
        proof {
            reveal_strlit("-");
        }
        text.append("-");
        let magnitude: u32 = (-(v as i64)) as u32;
        push_decimal(&mut text, magnitude);
        assert(text@ =~= signed_text(v as int));
    } else {
        push_decimal(&mut text, v as u32);
        assert(text@ =~= signed_text(v as int));
    }
    text
}

/// A pairing code in range is written with exactly six decimal digits, the
/// first of them not zero, and those digits write the code back.
pub proof fn lemma_pin_text_six_digits(pin: nat)
    requires
        PIN_MIN <= pin <= PIN_MAX,
    ensures
        pin_text(pin).len() == 6,
        all_digits(pin_text(pin)),
        pin_text(pin)[0] != '0',
        decimal_value(pin_text(pin)) == pin,
{
    let t = pin_text(pin);
    let t5 = t.drop_last();
    let t4 = t5.drop_last();
    let t3 = t4.drop_last();
    let t2 = t3.drop_last();
    let t1 = t2.drop_last();
    let t0 = t1.drop_last();
    assert(forall|d: nat| d < 10 ==> digit_value(#[trigger] digit_char(d)) == d);
    assert(t0.len() == 0);
    assert(decimal_value(t0) == 0);
    assert(decimal_value(t1) == pin / 100_000 % 10) by {
        assert(t1.last() == t[0]);
    }
    assert(decimal_value(t2) == pin / 10_000) by {
        assert(t2.last() == t[1]);
    }
    assert(decimal_value(t3) == pin / 1_000) by {
        assert(t3.last() == t[2]);
    }
    assert(decimal_value(t4) == pin / 100) by {
        assert(t4.last() == t[3]);
    }
    assert(decimal_value(t5) == pin / 10) by {
        assert(t5.last() == t[4]);
    }
    assert(t.last() == t[5]);
}

/// Two pairing codes in range with the same text are the same code.
pub proof fn lemma_pin_text_injective(a: nat, b: nat)
    requires
        PIN_MIN <= a <= PIN_MAX,
        PIN_MIN <= b <= PIN_MAX,
        pin_text(a) == pin_text(b),
    ensures
        a == b,
{
    lemma_pin_text_six_digits(a);
    lemma_pin_text_six_digits(b);
}

/// Every clock reading gives a pairing code between the two bounds.
pub proof fn lemma_pin_in_range(now_millis: nat)
    ensures
        PIN_MIN <= pin_of(now_millis) <= PIN_MAX,
{
}

} // verus!
