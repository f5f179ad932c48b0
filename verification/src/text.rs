//! Building blocks for the short texts the screen is made of: numbers in
//! decimal, runs of one character, padding to a column, and the pieces of a
//! string between two positions.

use vstd::prelude::*;

verus! {

/// `String::push` appends one character and changes nothing before it.
pub assume_specification[ String::push ](s: &mut String, c: char)
    ensures
        final(s)@ == old(s)@.push(c),
;

/// The character of one decimal digit.
pub open spec fn digit_char(d: nat) -> char {
    (48 + d) as char
}

/// A number as it is written in decimal: no sign, no leading zeros.
pub open spec fn decimal(n: nat) -> Seq<char>
    decreases n,
{
    if n < 10 {
        seq![digit_char(n)]
    } else {
        decimal(n / 10).push(digit_char(n % 10))
    }
}

/// `n` times the same character.
pub open spec fn run(c: char, n: nat) -> Seq<char> {
    Seq::new(n, |i: int| c)
}

/// `s` moved to the right edge of a column of `width` characters. What is too
/// long for the column stays whole.
pub open spec fn align_right(s: Seq<char>, width: nat) -> Seq<char> {
    if s.len() < width {
        run(' ', (width - s.len()) as nat) + s
    } else {
        s
    }
}

/// `s` at the left edge of a column of `width` characters.
pub open spec fn align_left(s: Seq<char>, width: nat) -> Seq<char> {
    if s.len() < width {
        s + run(' ', (width - s.len()) as nat)
    } else {
        s
    }
}

/// Appends the digits of `n` to `out`.
pub fn push_decimal(out: &mut String, n: u64)
    ensures
        final(out)@ == old(out)@ + decimal(n as nat),
    decreases n,
{
    if n < 10 {
        out.push((48 + n as u8) as char);
        assert(out@ =~= old(out)@ + decimal(n as nat));
    } else {
        push_decimal(out, n / 10);
        out.push((48 + (n % 10) as u8) as char);
        assert(out@ =~= old(out)@ + decimal(n as nat));
    }
}

/// A number in decimal.
pub fn number(n: u64) -> (r: String)
    ensures
        r@ == decimal(n as nat),
{
    let mut out = String::new();
    push_decimal(&mut out, n);
    assert(out@ =~= decimal(n as nat));
    out
}

/// `n` times the same character.
pub fn repeat(c: char, n: usize) -> (r: String)
    ensures
        r@ == run(c, n as nat),
{
    let mut out = String::new();
    let mut i: usize = 0;
    assert(out@ =~= run(c, 0));
    while i < n
        invariant
            i <= n,
            out@ == run(c, i as nat),
        decreases n - i,
    {
        out.push(c);
        i += 1;
        assert(out@ =~= run(c, i as nat));
    }
    out
}

/// Two texts, one after the other.
pub fn concat(a: &str, b: &str) -> (r: String)
    ensures
        r@ == a@ + b@,
{
    let mut out = a.to_owned();
    out.append(b);
    out
}

/// Three texts, one after the other.
pub fn concat3(a: &str, b: &str, c: &str) -> (r: String)
    ensures
        r@ == a@ + b@ + c@,
{
    let mut out = a.to_owned();
    out.append(b);
    out.append(c);
    out
}

/// `s` moved to the right edge of a column of `width` characters.
pub fn to_the_right(s: &str, width: usize) -> (r: String)
    ensures
        r@ == align_right(s@, width as nat),
{
    let len: usize = s.unicode_len();
    if len < width {
        concat(repeat(' ', width - len).as_str(), s)
    } else {
        s.to_owned()
    }
}

/// `s` at the left edge of a column of `width` characters.
pub fn to_the_left(s: &str, width: usize) -> (r: String)
    ensures
        r@ == align_left(s@, width as nat),
{
    let len: usize = s.unicode_len();
    if len < width {
        concat(s, repeat(' ', width - len).as_str())
    } else {
        s.to_owned()
    }
}

/// The text a slice of characters spells.
pub fn spell(s: &[char]) -> (r: String)
    ensures
        r@ == s@,
{
    let mut out = String::new();
    let mut i: usize = 0;
    while i < s.len()
        invariant
            i <= s@.len(),
            out@ == s@.take(i as int),
        decreases s@.len() - i,
    {
        out.push(s[i]);
        assert(s@.take(i as int).push(s@[i as int]) =~= s@.take(i + 1));
        i += 1;
    }
    assert(s@.take(s@.len() as int) =~= s@);
    out
}

/// Equality of two strings, character by character.
pub fn same(a: &str, b: &str) -> (r: bool)
    ensures
        r == (a@ == b@),
{
    a.to_owned() == b.to_owned()
}

/// The characters of `s`.
pub fn chars(s: &str) -> (r: Vec<char>)
    ensures
        r@ == s@,
{
    let mut out: Vec<char> = Vec::new();
    for c in it: s.chars()
        invariant
            out@ == it.seq().take(it.index() as int),
            it.seq() == s@,
    {
        out.push(c);
        assert(it.seq().take(it.index() as int).push(c) =~= it.seq().take(it.index() as int + 1));
    }
    assert(s@.take(s@.len() as int) =~= s@);
    out
}

/// A column is as wide as it is asked to be, or as what stands in it, which
/// stands at its edge whole, with nothing but spaces beside it.
pub proof fn law_a_column_keeps_what_stands_in_it(s: Seq<char>, width: nat)
    ensures
        align_right(s, width).len() == if s.len() < width {
            width
        } else {
            s.len()
        },
        align_left(s, width).len() == align_right(s, width).len(),
        align_right(s, width).skip(align_right(s, width).len() - s.len()) == s,
        align_left(s, width).take(s.len() as int) == s,
        forall|i: int|
            0 <= i < align_right(s, width).len() - s.len() ==> #[trigger] align_right(s, width)[i]
                == ' ',
        forall|i: int|
            s.len() <= i < align_left(s, width).len() ==> #[trigger] align_left(s, width)[i] == ' ',
{
    assert(align_right(s, width).skip(align_right(s, width).len() - s.len()) =~= s);
    assert(align_left(s, width).take(s.len() as int) =~= s);
}

} // verus!
