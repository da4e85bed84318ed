//! Writing out numbers and bars.

use vstd::prelude::*;

verus! {

/// A digit as text.
pub open spec fn digit_text(d: int) -> Seq<char> {
    seq!["0"@, "1"@, "2"@, "3"@, "4"@, "5"@, "6"@, "7"@, "8"@, "9"@][d]
}

/// A number in decimal digits.
pub open spec fn decimal_text(n: nat) -> Seq<char>
    decreases n,
{
    if n < 10 {
        digit_text(n as int)
    } else {
        decimal_text(n / 10) + digit_text((n % 10) as int)
    }
}

/// A number in decimal digits, with a minus sign if it is negative.
pub open spec fn signed_text(n: int) -> Seq<char> {
    if n < 0 {
        "-"@ + decimal_text((-n) as nat)
    } else {
        decimal_text(n as nat)
    }
}

/// Half a number to one decimal place.
pub open spec fn halves_text(n: int) -> Seq<char> {
    decimal_text((n / 2) as nat) + (if n % 2 == 0 {
        ".0"@
    } else {
        ".5"@
    })
}

/// A bar of a given width of which the first so many boxes are filled.
pub open spec fn bar_text(filled: int, width: nat) -> Seq<char> {
    Seq::new(
        width,
        |i: int|
            if i < filled {
                '█'
            } else {
                '░'
            },
    )
}

/// A text filled up with blanks to a width.
pub open spec fn padded_text(text: Seq<char>, width: nat) -> Seq<char> {
    if text.len() >= width {
        text
    } else {
        text + Seq::new((width - text.len()) as nat, |i: int| ' ')
    }
}

/// A letter of the Latin alphabet as a capital; other characters stay as they are.
pub open spec fn capital(c: char) -> char {
    if 'a' <= c && c <= 'z' {
        (c as int - 'a' as int + 'A' as int) as char
    } else {
        c
    }
}

fn digit(d: u64) -> (text: &'static str)
    requires
        d < 10,
    ensures
        text@ == digit_text(d as int),
{
    match d {
        0 => "0",
        1 => "1",
        2 => "2",
        3 => "3",
        4 => "4",
        5 => "5",
        6 => "6",
        7 => "7",
        8 => "8",
        _ => "9",
    }
}

/// Writes a number in decimal digits.
pub fn decimal(n: u64) -> (text: String)
    ensures
        text@ == decimal_text(n as nat),
    decreases n,
{
    if n < 10 {
        digit(n).to_string()
    } else {
        let mut text = decimal(n / 10);
        text.append(digit(n % 10));
        text
    }
}

/// Writes a number in decimal digits, with its sign if it is negative.
pub fn signed(n: i32) -> (text: String)
    ensures
        text@ == signed_text(n as int),
{
    if n < 0 {
        let mut text = "-".to_string();
        text.append(decimal((-(n as i64)) as u64).as_str());
        text
    } else {
        decimal(n as u64)
    }
}

/// Writes half a number to one decimal place.
pub fn halves(n: u8) -> (text: String)
    ensures
        text@ == halves_text(n as int),
{
    let mut text = decimal((n / 2) as u64);
    if n % 2 == 0 {
        text.append(".0");
    } else {
        text.append(".5");
    }
    text
}

/// Draws a bar.
pub fn bar(filled: u8, width: u8) -> (text: String)
    ensures
        text@ == bar_text(filled as int, width as nat),
{
    proof {
        reveal_strlit("█");
        reveal_strlit("░");
    }
    let mut text = String::new();
    for i in 0..width
        invariant
            text@ == bar_text(filled as int, i as nat),
            "█"@ =~= seq!['█'],
            "░"@ =~= seq!['░'],
    {
        if i < filled {
            text.append("█");
        } else {
            text.append("░");
        }
        assert(text@ =~= bar_text(filled as int, (i + 1) as nat));
    }
    text
}

/// Fills a text up with blanks.
pub fn padded(text: &str, width: usize) -> (wide: String)
    ensures
        wide@ == padded_text(text@, width as nat),
{
    proof {
        reveal_strlit(" ");
    }
    let mut wide = text.to_string();
    let length: usize = text.unicode_len();
    if length < width {
        for i in length..width
            invariant
                length == text@.len(),
                length < width,
                wide@ == padded_text(text@, i as nat),
                " "@ =~= seq![' '],
        {
            wide.append(" ");
            assert(wide@ =~= padded_text(text@, (i + 1) as nat));
        }
    }
    wide
}

/// Turns a letter into a capital.
pub fn to_capital(c: char) -> (upper: char)
    ensures
        upper == capital(c),
{
    if 'a' <= c && c <= 'z' {
        (c as u8 - 32) as char
    } else {
        c
    }
}

/// Joins three texts.
pub fn join(a: &str, b: &str, c: &str) -> (text: String)
    ensures
        text@ == a@ + b@ + c@,
{
    let mut text = a.to_string();
    text.append(b);
    text.append(c);
    text
}

/// The number that decimal digits stand for.
pub open spec fn digits_value(text: Seq<char>) -> int
    decreases text.len(),
{
    if text.len() == 0 {
        0
    } else {
        10 * digits_value(text.drop_last()) + (text.last() as int - '0' as int)
    }
}

/// A number that is written out can be read back.
pub proof fn law_decimals_read_back(n: nat)
    ensures
        digits_value(decimal_text(n)) == n,
    decreases n,
{
    let last = digit_text((n % 10) as int);
    lemma_digit(n % 10);
    if n < 10 {
        assert(last.drop_last() =~= Seq::<char>::empty());
        reveal_with_fuel(digits_value, 2);
    } else {
        law_decimals_read_back(n / 10);
        assert(decimal_text(n).drop_last() =~= decimal_text(n / 10));
    }
}

proof fn lemma_digit(d: nat)
    requires
        d < 10,
    ensures
        digit_text(d as int).len() == 1,
        digit_text(d as int)[0] as int == '0' as int + d,
{
    reveal_strlit("0");
    reveal_strlit("1");
    reveal_strlit("2");
    reveal_strlit("3");
    reveal_strlit("4");
    reveal_strlit("5");
    reveal_strlit("6");
    reveal_strlit("7");
    reveal_strlit("8");
    reveal_strlit("9");
}

/// Numbers are written in digits only, at least one, and without a leading zero.
pub proof fn law_decimals_are_digits(n: nat, i: int)
    requires
        0 <= i < decimal_text(n).len(),
    ensures
        decimal_text(n).len() > 0,
        '0' <= decimal_text(n)[i] <= '9',
        n > 0 ==> decimal_text(n)[0] != '0',
    decreases n,
{
    lemma_digit(n % 10);
    if n >= 10 {
        let front = decimal_text(n / 10);
        lemma_some_digit(n / 10);
        law_decimals_are_digits(n / 10, 0);
        if i < front.len() {
            law_decimals_are_digits(n / 10, i);
        }
    }
}

proof fn lemma_some_digit(n: nat)
    ensures
        decimal_text(n).len() > 0,
    decreases n,
{
    lemma_digit(n % 10);
    if n >= 10 {
        lemma_some_digit(n / 10);
    }
}

/// A negative number is a minus sign and the number without it, and any other is just its digits.
pub proof fn law_signs(n: int)
    ensures
        n >= 0 ==> signed_text(n) == decimal_text(n as nat),
        n < 0 ==> signed_text(n).len() > 0 && signed_text(n)[0] == '-' && signed_text(n).skip(1)
            == decimal_text((-n) as nat),
{
    reveal_strlit("-");
    if n < 0 {
        assert(signed_text(n).skip(1) =~= decimal_text((-n) as nat));
    }
}

/// Half a number is written as its whole part, a point, and a zero or a five.
pub proof fn law_halves(n: nat)
    ensures
        halves_text(2 * n as int) == decimal_text(n).push('.').push('0'),
        halves_text(2 * n as int + 1) == decimal_text(n).push('.').push('5'),
{
    reveal_strlit(".0");
    reveal_strlit(".5");
    assert((2 * n as int) / 2 == n && (2 * n + 1) / 2 == n);
    assert(halves_text(2 * n as int) =~= decimal_text(n).push('.').push('0'));
    assert(halves_text(2 * n as int + 1) =~= decimal_text(n).push('.').push('5'));
}

/// A bar is as wide as it is asked to be, and filled from the left by just so many boxes.
pub proof fn law_bars_are_filled_from_the_left(filled: int, width: nat, i: int)
    requires
        0 <= i < width,
    ensures
        bar_text(filled, width).len() == width,
        i < filled ==> bar_text(filled, width)[i] == '█',
        i >= filled ==> bar_text(filled, width)[i] == '░',
{
}

/// Filling up a text keeps it at the front, adds nothing but blanks, and only as many as are needed.
pub proof fn law_padding_adds_blanks(text: Seq<char>, width: nat, i: int)
    ensures
        text.len() >= width ==> padded_text(text, width) == text,
        text.len() < width ==> padded_text(text, width).len() == width,
        padded_text(text, width).take(text.len() as int) == text,
        text.len() <= i < width ==> padded_text(text, width)[i] == ' ',
{
    assert(padded_text(text, width).take(text.len() as int) =~= text);
}

/// Small letters become the capitals, which lie 32 characters before them, and nothing else changes.
pub proof fn law_capitals(c: char)
    ensures
        'a' <= c <= 'z' ==> capital(c) as int == c as int - 32,
        !('a' <= c <= 'z') ==> capital(c) == c,
{
}

} // verus!
