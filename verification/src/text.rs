//! Text in columns: numbers written in decimal, and text padded to a width.

use vstd::prelude::*;
use vstd::string::*;

verus! {

/// `count` times the character `c`.
pub open spec fn repeated(c: char, count: nat) -> Seq<char> {
    Seq::new(count, |i: int| c)
}

/// `text` behind as many spaces as bring it to `width` characters; longer
/// text stays as it is.
pub open spec fn right_justified(text: Seq<char>, width: nat) -> Seq<char> {
    if text.len() >= width {
        text
    } else {
        repeated(' ', (width - text.len()) as nat) + text
    }
}

/// `text` in front of as many spaces as bring it to `width` characters;
/// longer text stays as it is.
pub open spec fn left_justified(text: Seq<char>, width: nat) -> Seq<char> {
    if text.len() >= width {
        text
    } else {
        text + repeated(' ', (width - text.len()) as nat)
    }
}

/// The character of the decimal digit `digit`.
pub open spec fn digit_char(digit: nat) -> char
    recommends
        digit < 10,
{
    if digit == 0 {
        '0'
    } else if digit == 1 {
        '1'
    } else if digit == 2 {
        '2'
    } else if digit == 3 {
        '3'
    } else if digit == 4 {
        '4'
    } else if digit == 5 {
        '5'
    } else if digit == 6 {
        '6'
    } else if digit == 7 {
        '7'
    } else if digit == 8 {
        '8'
    } else {
        '9'
    }
}

/// `n` in decimal, without leading zeros.
pub open spec fn decimal_digits(n: nat) -> Seq<char>
    decreases n,
{
    if n < 10 {
        seq![digit_char(n)]
    } else {
        decimal_digits(n / 10).push(digit_char(n % 10))
    }
}

/// A number in decimal has as many digits as it takes, and at least one.
pub proof fn lemma_decimal_digits_len(n: nat)
    ensures
        decimal_digits(n).len() >= 1,
        n < 10 ==> decimal_digits(n).len() == 1,
        10 <= n < 100 ==> decimal_digits(n).len() == 2,
    decreases n,
{
    if n >= 10 {
        lemma_decimal_digits_len(n / 10);
    }
}

/// The decimal digit `d` as text.
fn digit(d: u128) -> (s: &'static str)
    requires
        d < 10,
    ensures
        s@ == seq![digit_char(d as nat)],
{
    proof {
        reveal_strlit("0");
        reveal_strlit("1");
        reveal_strlit("2");
        reveal_strlit("3");
        reveal_strlit("4");
        reveal_strlit("5");
        reveal_strlit("6");
        reveal_strlit("7");
        reveal_strlit("8");
        reveal_strlit("9");
    }
    let s: &'static str = if d == 0 {
        "0"
    } else if d == 1 {
        "1"
    } else if d == 2 {
        "2"
    } else if d == 3 {
        "3"
    } else if d == 4 {
        "4"
    } else if d == 5 {
        "5"
    } else if d == 6 {
        "6"
    } else if d == 7 {
        "7"
    } else if d == 8 {
        "8"
    } else {
        "9"
    };
    assert(s@ =~= seq![digit_char(d as nat)]);
    s
}

/// Writes `n` in decimal.
pub fn decimal(n: u128) -> (s: String)
    ensures
        s@ == decimal_digits(n as nat),
    decreases n,
{
    if n < 10 {
        digit(n).to_owned()
    } else {
        let mut s: String = decimal(n / 10);
        s.append(digit(n % 10));
        s
    }
}

/// `count` times the single character of `unit`.
pub(crate) fn repeat(unit: &str, count: usize) -> (s: String)
    requires
        unit@.len() == 1,
    ensures
        s@ == repeated(unit@[0], count as nat),
{
    let mut s: String = String::new();
    let mut i: usize = 0;
    while i < count
        invariant
            i <= count,
            unit@.len() == 1,
            s@ == repeated(unit@[0], i as nat),
        decreases count - i,
    {
        s.append(unit);
        i = i + 1;
        assert(s@ =~= repeated(unit@[0], i as nat));
    }
    s
}

/// Pads `text` with spaces at its front to `width` characters.
pub fn pad_left(text: &str, width: usize) -> (s: String)
    ensures
        s@ == right_justified(text@, width as nat),
{
    proof {
        reveal_strlit(" ");
    }
    let len: usize = text.unicode_len();
    let mut s: String = if len < width {
        repeat(" ", width - len)
    } else {
        String::new()
    };
    s.append(text);
    assert(s@ =~= right_justified(text@, width as nat));
    s
}

/// Pads `text` with spaces at its end to `width` characters.
pub fn pad_right(text: &str, width: usize) -> (s: String)
    ensures
        s@ == left_justified(text@, width as nat),
{
    proof {
        reveal_strlit(" ");
    }
    let len: usize = text.unicode_len();
    let mut s: String = text.to_owned();
    if len < width {
        let fill: String = repeat(" ", width - len);
        s.append(fill.as_str());
    }
    assert(s@ =~= left_justified(text@, width as nat));
    s
}

/// What the lines say, line by line.
pub open spec fn lines_of(lines: Seq<String>) -> Seq<Seq<char>> {
    Seq::new(lines.len(), |i: int| lines[i]@)
}

/// Adds `line` at the end of `lines`.
pub fn push_line(lines: &mut Vec<String>, line: String)
    ensures
        lines_of(final(lines)@) == lines_of(old(lines)@).push(line@),
{
    lines.push(line);
    assert(lines_of(lines@) =~= lines_of(old(lines)@).push(line@));
}

/// Adds the lines of `more` at the end of `lines`.
pub fn push_lines(lines: &mut Vec<String>, more: Vec<String>)
    ensures
        lines_of(final(lines)@) == lines_of(old(lines)@) + lines_of(more@),
{
    let mut more = more;
    let ghost added = more@;
    lines.append(&mut more);
    assert(lines_of(lines@) =~= lines_of(old(lines)@) + lines_of(added));
}

} // verus!
