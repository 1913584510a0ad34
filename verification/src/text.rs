//! Text for the terminal: decimal numbers and 24-bit ANSI colouring.

use vstd::prelude::*;
use vstd::string::StringExecFns;
use crate::color::Rgb;

verus! {

/// The character of a decimal digit.
pub open spec fn digit_char(d: int) -> char
    recommends
        0 <= d < 10,
{
    if d == 0 {
        '0'
    } else if d == 1 {
        '1'
    } else if d == 2 {
        '2'
    } else if d == 3 {
        '3'
    } else if d == 4 {
        '4'
    } else if d == 5 {
        '5'
    } else if d == 6 {
        '6'
    } else if d == 7 {
        '7'
    } else if d == 8 {
        '8'
    } else {
        '9'
    }
}

/// `n` written in decimal, without leading zeros.
pub open spec fn decimal(n: nat) -> Seq<char>
    decreases n,
{
    if n < 10 {
        seq![digit_char(n as int)]
    } else {
        decimal(n / 10) + seq![digit_char((n % 10) as int)]
    }
}

/// A decimal digit character.
pub open spec fn is_decimal_digit(c: char) -> bool {
    '0' <= c && c <= '9'
}

/// The number that a string of decimal digits denotes, most significant
/// digit first.
pub open spec fn numeral_value(s: Seq<char>) -> int
    decreases s.len(),
{
    if s.len() == 0 {
        0
    } else {
        numeral_value(s.drop_last()) * 10 + (s.last() as int - '0' as int)
    }
}

/// The digit character of `d` stands for `d`.
proof fn lemma_digit_value(d: int)
    requires
        0 <= d < 10,
    ensures
        is_decimal_digit(digit_char(d)),
        digit_char(d) as int - '0' as int == d,
{
}

/// `decimal(n)` is the base-10 numeral of `n`: one or more decimal digits
/// that denote `n`, with no leading zero unless `n` is zero.
pub proof fn decimal_is_numeral(n: nat)
    ensures
        decimal(n).len() >= 1,
        forall|i: int| 0 <= i < decimal(n).len() ==> is_decimal_digit(#[trigger] decimal(n)[i]),
        numeral_value(decimal(n)) == n,
        decimal(n)[0] == '0' ==> n == 0,
    decreases n,
{
    if n < 10 {
        lemma_digit_value(n as int);
        assert(decimal(n) =~= seq![digit_char(n as int)]);
        assert(decimal(n).drop_last() =~= Seq::<char>::empty());
        assert(numeral_value(Seq::<char>::empty()) == 0);
        assert(numeral_value(decimal(n)) == numeral_value(decimal(n).drop_last()) * 10 + (
        decimal(n).last() as int - '0' as int));
    } else {
        decimal_is_numeral(n / 10);
        lemma_digit_value((n % 10) as int);
        let d = decimal(n);
        let h = decimal(n / 10);
        assert(d =~= h + seq![digit_char((n % 10) as int)]);
        assert(d.drop_last() =~= h);
        assert(d[0] == h[0]);
        assert forall|i: int| 0 <= i < d.len() implies is_decimal_digit(#[trigger] d[i]) by {
            if i < h.len() {
                assert(d[i] == h[i]);
            }
        }
        assert(numeral_value(d) == numeral_value(h) * 10 + (d.last() as int - '0' as int));
        assert(d.last() == digit_char((n % 10) as int));
        assert(n == (n / 10) * 10 + n % 10);
    }
}

/// The text that switches the terminal's foreground colour on.
pub open spec fn fg_on(c: Rgb) -> Seq<char> {
    seq!['\x1b', '[', '3', '8', ';', '2', ';'] + decimal(c.r as nat) + seq![';'] + decimal(
        c.g as nat,
    ) + seq![';'] + decimal(c.b as nat) + seq!['m']
}

/// The text that resets the terminal's colour.
pub open spec fn fg_off() -> Seq<char> {
    seq!['\x1b', '[', '0', 'm']
}

/// `text` shown in colour `c`.
pub open spec fn painted(c: Rgb, text: Seq<char>) -> Seq<char> {
    fg_on(c) + text + fg_off()
}

/// A channel name as it heads a chat line: `[#name]`, the name in colour.
pub open spec fn colored(s: Seq<char>, c: Rgb) -> Seq<char> {
    seq!['[', '#'] + painted(c, s) + seq![']']
}

/// The one-character string of digit `d`.
fn digit_str(d: u64) -> (s: &'static str)
    requires
        d < 10,
    ensures
        s@ == seq![digit_char(d as int)],
{
    proof {
        reveal_strlit("0");
        reveal_strlit("1");
        reveal_strlit("2");
        reveal_strlit("3");
        reveal_strlit("4");
        reveal_strlit("5");
        reveal_strlit("6");
        reveal_strlit("7");
        reveal_strlit("8");
        reveal_strlit("9");
    }
    match d {
        0 => "0",
        1 => "1",
        2 => "2",
        3 => "3",
        4 => "4",
        5 => "5",
        6 => "6",
        7 => "7",
        8 => "8",
        _ => "9",
    }
}

/// `n` in decimal.
pub fn decimal_string(n: u64) -> (s: String)
    ensures
        s@ == decimal(n as nat),
{
    let mut m: u64 = n;
    let mut acc = String::new();
    while m >= 10
        invariant
            decimal(n as nat) == decimal(m as nat) + acc@,
        decreases m,
    {
        let d: u64 = m % 10;
        let ghost old_acc = acc@;
        let mut next = String::new();
        next.append(digit_str(d));
        next.append(acc.as_str());
        acc = next;
        assert(decimal(m as nat) == decimal((m / 10) as nat) + seq![digit_char(d as int)]);
        assert(decimal(m as nat) + old_acc =~= decimal((m / 10) as nat) + acc@);
        m = m / 10;
    }
    let mut s = String::new();
    s.append(digit_str(m));
    s.append(acc.as_str());
    assert(s@ =~= decimal(m as nat) + acc@);
    s
}

/// `text` with the escape codes that show it in colour `c` around it.
pub fn paint(c: Rgb, text: &str) -> (s: String)
    ensures
        s@ == painted(c, text@),
{
    proof {
        reveal_strlit("\x1b[38;2;");
        reveal_strlit(";");
        reveal_strlit("m");
        reveal_strlit("\x1b[0m");
    }
    let mut s = String::new();
    s.append("\x1b[38;2;");
    s.append(decimal_string(c.r as u64).as_str());
    s.append(";");
    s.append(decimal_string(c.g as u64).as_str());
    s.append(";");
    s.append(decimal_string(c.b as u64).as_str());
    s.append("m");
    s.append(text);
    s.append("\x1b[0m");
    assert(s@ =~= painted(c, text@));
    s
}

/// A channel name as it heads a chat line: `[#` and `]` around the name shown
/// in colour `c`.
pub fn colored_string(s: &String, c: Rgb) -> (r: String)
    ensures
        r@ == colored(s@, c),
{
    proof {
        reveal_strlit("[#");
        reveal_strlit("]");
    }
    let mut r = String::new();
    r.append("[#");
    r.append(paint(c, s.as_str()).as_str());
    r.append("]");
    assert(r@ =~= colored(s@, c));
    r
}

} // verus!
