//! Taking text apart: finding a pattern, splitting at it, stripping what
//! stands at either end, and reading a number.
//!
//! Everything here works on slices of characters, so a position is a count of
//! characters and never falls inside one.

use vstd::prelude::*;
use vstd::slice::slice_subrange;

verus! {

/// `p` stands in `s` at position `i`.
pub open spec fn occurs_at(s: Seq<char>, p: Seq<char>, i: int) -> bool {
    &&& 0 <= i
    &&& i + p.len() <= s.len()
    &&& s.subrange(i, i + p.len()) == p
}

/// The first position from `from` on at which `p` stands in `s`.
pub open spec fn find(s: Seq<char>, p: Seq<char>, from: nat) -> Option<nat>
    decreases s.len() - from,
{
    if from + p.len() > s.len() {
        None
    } else if occurs_at(s, p, from as int) {
        Some(from)
    } else if from == s.len() {
        None
    } else {
        find(s, p, from + 1)
    }
}

/// What stands before and after the first `p` in `s`.
pub open spec fn split_once(s: Seq<char>, p: Seq<char>) -> Option<(Seq<char>, Seq<char>)> {
    match find(s, p, 0) {
        Some(i) => Some((s.take(i as int), s.skip((i + p.len()) as int))),
        None => None,
    }
}

/// The pieces of `s` between one `p` and the next, the first and the last
/// piece among them.
pub open spec fn split_all(s: Seq<char>, p: Seq<char>) -> Seq<Seq<char>>
    decreases s.len(),
    when p.len() > 0
    via split_all_decreases
{
    match split_once(s, p) {
        Some((head, rest)) => seq![head] + split_all(rest, p),
        None => seq![s],
    }
}

#[via_fn]
proof fn split_all_decreases(s: Seq<char>, p: Seq<char>) {
    lemma_find(s, p, 0);
}

/// What `find` returns is the first occurrence, and nothing else is.
pub proof fn lemma_find(s: Seq<char>, p: Seq<char>, from: nat)
    ensures
        match find(s, p, from) {
            Some(i) => from <= i && occurs_at(s, p, i as int) && forall|j: int|
                from <= j < i ==> !occurs_at(s, p, j),
            None => forall|j: int| from <= j ==> !occurs_at(s, p, j),
        },
    decreases s.len() - from,
{
    if from + p.len() > s.len() {
    } else if occurs_at(s, p, from as int) {
    } else if from == s.len() {
    } else {
        lemma_find(s, p, from + 1);
    }
}

/// An occurrence with none before it is what `find` returns.
pub proof fn lemma_find_first(s: Seq<char>, p: Seq<char>, from: nat, i: nat)
    requires
        from <= i,
        occurs_at(s, p, i as int),
        forall|j: int| from <= j < i ==> !occurs_at(s, p, j),
    ensures
        find(s, p, from) == Some(i),
{
    lemma_find(s, p, from);
}

/// `s` without the `p` it begins with.
pub open spec fn strip_prefix(s: Seq<char>, p: Seq<char>) -> Option<Seq<char>> {
    if occurs_at(s, p, 0) {
        Some(s.skip(p.len() as int))
    } else {
        None
    }
}

/// `s` without the `c`s at its end.
pub open spec fn trim_end_of(s: Seq<char>, c: char) -> Seq<char>
    decreases s.len(),
{
    if s.len() > 0 && s.last() == c {
        trim_end_of(s.drop_last(), c)
    } else {
        s
    }
}

/// The characters with the Unicode property White_Space.
pub open spec fn white_space(c: char) -> bool {
    ||| '\u{9}' <= c <= '\u{d}'
    ||| c == ' '
    ||| c == '\u{85}'
    ||| c == '\u{a0}'
    ||| c == '\u{1680}'
    ||| '\u{2000}' <= c <= '\u{200a}'
    ||| c == '\u{2028}'
    ||| c == '\u{2029}'
    ||| c == '\u{202f}'
    ||| c == '\u{205f}'
    ||| c == '\u{3000}'
}

/// Whether a character has the property White_Space.
pub fn is_white_space(c: char) -> (r: bool)
    ensures
        r == white_space(c),
{
    ('\u{9}' <= c && c <= '\u{d}') || c == ' ' || c == '\u{85}' || c == '\u{a0}' || c == '\u{1680}'
        || ('\u{2000}' <= c && c <= '\u{200a}') || c == '\u{2028}' || c == '\u{2029}' || c
        == '\u{202f}' || c == '\u{205f}' || c == '\u{3000}'
}

/// `s` without the white space at its start.
pub open spec fn trim_start(s: Seq<char>) -> Seq<char>
    decreases s.len(),
{
    if s.len() > 0 && white_space(s[0]) {
        trim_start(s.skip(1))
    } else {
        s
    }
}

/// `s` without the white space at its end.
pub open spec fn trim_end(s: Seq<char>) -> Seq<char>
    decreases s.len(),
{
    if s.len() > 0 && white_space(s.last()) {
        trim_end(s.drop_last())
    } else {
        s
    }
}

/// `s` without the white space around it.
pub open spec fn trim(s: Seq<char>) -> Seq<char> {
    trim_end(trim_start(s))
}

/// A line without the carriage return that belongs to its line ending.
pub open spec fn without_return(s: Seq<char>) -> Seq<char> {
    if s.len() > 0 && s.last() == '\r' {
        s.drop_last()
    } else {
        s
    }
}

/// The lines of `s`: a line ends with a line feed, or a carriage return and a
/// line feed, and the ending after the last line is optional.
pub open spec fn lines(s: Seq<char>) -> Seq<Seq<char>>
    decreases s.len(),
    via lines_decreases
{
    if s.len() == 0 {
        Seq::empty()
    } else {
        match split_once(s, seq!['\n']) {
            Some((head, rest)) => seq![without_return(head)] + lines(rest),
            None => seq![s],
        }
    }
}

#[via_fn]
proof fn lines_decreases(s: Seq<char>) {
    lemma_find(s, seq!['\n'], 0);
}

/// A decimal digit.
pub open spec fn is_digit(c: char) -> bool {
    '0' <= c <= '9'
}

/// The number a run of digits stands for.
pub open spec fn digits_value(s: Seq<char>) -> nat
    decreases s.len(),
{
    if s.len() == 0 {
        0
    } else {
        digits_value(s.drop_last()) * 10 + (s.last() as nat - '0' as nat) as nat
    }
}

/// The digits of an unsigned number, behind the plus sign it may carry.
pub open spec fn unsigned_digits(s: Seq<char>) -> Seq<char> {
    if s.len() > 0 && s[0] == '+' {
        s.skip(1)
    } else {
        s
    }
}

/// The unsigned number `s` spells, at most `max`: an optional plus sign and
/// one or more digits, nothing else.
pub open spec fn unsigned(s: Seq<char>, max: nat) -> Option<nat> {
    let digits = unsigned_digits(s);
    if digits.len() > 0 && (forall|i: int| 0 <= i < digits.len() ==> is_digit(#[trigger] digits[i]))
        && digits_value(digits) <= max {
        Some(digits_value(digits))
    } else {
        None
    }
}

/// How many bytes a character takes in UTF-8.
pub open spec fn utf8_width(c: char) -> nat {
    if (c as u32) < 0x80 {
        1
    } else if (c as u32) < 0x800 {
        2
    } else if (c as u32) < 0x10000 {
        3
    } else {
        4
    }
}

/// How many bytes a text takes in UTF-8.
pub open spec fn byte_len(s: Seq<char>) -> nat
    decreases s.len(),
{
    if s.len() == 0 {
        0
    } else {
        byte_len(s.drop_last()) + utf8_width(s.last())
    }
}

/// How many characters the first `n` bytes of a text hold, or `None` when the
/// cut would go through a character or past the end.
pub open spec fn chars_in(s: Seq<char>, n: nat) -> Option<nat>
    decreases s.len(),
{
    if n == 0 {
        Some(0)
    } else if s.len() == 0 || n < utf8_width(s[0]) {
        None
    } else {
        match chars_in(s.skip(1), (n - utf8_width(s[0])) as nat) {
            Some(k) => Some(k + 1),
            None => None,
        }
    }
}

/// The contents of a list of character vectors.
pub open spec fn pieces(v: Seq<Vec<char>>) -> Seq<Seq<char>> {
    Seq::new(v.len(), |i: int| v[i]@)
}

/// How many bytes a character takes in UTF-8.
fn width_of(c: char) -> (r: usize)
    ensures
        r == utf8_width(c),
{
    if (c as u32) < 0x80 {
        1
    } else if (c as u32) < 0x800 {
        2
    } else if (c as u32) < 0x10000 {
        3
    } else {
        4
    }
}

/// Whether `s` takes at least `n` bytes in UTF-8.
pub fn at_least_bytes(s: &[char], n: usize) -> (r: bool)
    ensures
        r == (byte_len(s@) >= n),
{
    let mut left: usize = n;
    let mut i: usize = 0;
    assert(byte_len(s@.take(0)) == 0);
    while i < s.len()
        invariant
            i <= s@.len(),
            left <= n,
            left == n - byte_len(s@.take(i as int)),
        decreases s@.len() - i,
    {
        let w: usize = width_of(s[i]);
        assert(s@.take(i + 1).drop_last() =~= s@.take(i as int));
        if w >= left {
            proof {
                lemma_byte_len_prefix(s@, i + 1);
            }
            return true;
        }
        left -= w;
        i += 1;
    }
    assert(s@.take(i as int) =~= s@);
    left == 0
}

/// A prefix takes no more bytes than the text it begins.
proof fn lemma_byte_len_prefix(s: Seq<char>, n: int)
    requires
        0 <= n <= s.len(),
    ensures
        byte_len(s.take(n)) <= byte_len(s),
    decreases s.len(),
{
    if n < s.len() {
        lemma_byte_len_prefix(s.drop_last(), n);
        assert(s.drop_last().take(n) =~= s.take(n));
    } else {
        assert(s.take(n) =~= s);
    }
}

/// How many characters the first `n` bytes of `s` hold.
pub fn chars_within(s: &[char], n: usize) -> (r: Option<usize>)
    ensures
        match r {
            Some(k) => chars_in(s@, n as nat) == Some(k as nat) && k <= s@.len(),
            None => chars_in(s@, n as nat) is None,
        },
{
    let mut left: usize = n;
    let mut i: usize = 0;
    assert(s@.skip(0) =~= s@);
    while left > 0
        invariant
            i <= s@.len(),
            match chars_in(s@.skip(i as int), left as nat) {
                Some(k) => chars_in(s@, n as nat) == Some((k + i) as nat),
                None => chars_in(s@, n as nat) is None,
            },
        decreases left,
    {
        if i == s.len() {
            return None;
        }
        let w: usize = width_of(s[i]);
        if left < w {
            return None;
        }
        assert(s@.skip(i as int).skip(1) =~= s@.skip(i + 1));
        left -= w;
        i += 1;
    }
    Some(i)
}

/// Whether `p` stands in `s` at `at`.
fn matches_at(s: &[char], p: &[char], at: usize) -> (r: bool)
    ensures
        r == occurs_at(s@, p@, at as int),
{
    if s.len() < p.len() || at > s.len() - p.len() {
        return false;
    }
    let end: usize = s.len();
    let mut i: usize = 0;
    while i < p.len()
        invariant
            end == s@.len(),
            at + p@.len() <= end,
            i <= p@.len(),
            forall|j: int| 0 <= j < i ==> s@[at + j] == p@[j],
        decreases p@.len() - i,
    {
        if s[at + i] != p[i] {
            assert(s@.subrange(at as int, at + p@.len())[i as int] != p@[i as int]);
            return false;
        }
        i += 1;
    }
    assert(s@.subrange(at as int, at + p@.len()) =~= p@);
    true
}

/// The position of the first `p` in `s`.
pub fn position(s: &[char], p: &[char]) -> (r: Option<usize>)
    ensures
        match r {
            Some(i) => find(s@, p@, 0) == Some(i as nat),
            None => find(s@, p@, 0) is None,
        },
{
    let mut i: usize = 0;
    loop
        invariant
            i <= s@.len(),
            find(s@, p@, 0) == find(s@, p@, i as nat),
        decreases s@.len() - i,
    {
        if matches_at(s, p, i) {
            return Some(i);
        }
        if i == s.len() || p.len() > s.len() || i > s.len() - p.len() {
            return None;
        }
        i += 1;
    }
}

/// What stands before and after the first `p` in `s`.
pub fn cut<'a>(s: &'a [char], p: &[char]) -> (r: Option<(&'a [char], &'a [char])>)
    ensures
        match r {
            Some((a, b)) => split_once(s@, p@) == Some((a@, b@)),
            None => split_once(s@, p@) is None,
        },
{
    match position(s, p) {
        Some(i) => {
            proof {
                lemma_find(s@, p@, 0);
            }
            let end: usize = s.len();
            let a = slice_subrange(s, 0, i);
            let b = slice_subrange(s, i + p.len(), end);
            assert(a@ =~= s@.take(i as int));
            assert(b@ =~= s@.skip(i + p@.len()));
            Some((a, b))
        },
        None => None,
    }
}

/// A copy of a slice.
pub fn copy(s: &[char]) -> (r: Vec<char>)
    ensures
        r@ == s@,
{
    let mut out: Vec<char> = Vec::new();
    let mut i: usize = 0;
    while i < s.len()
        invariant
            i <= s@.len(),
            out@ == s@.take(i as int),
        decreases s@.len() - i,
    {
        out.push(s[i]);
        assert(s@.take(i as int).push(s@[i as int]) =~= s@.take(i + 1));
        i += 1;
    }
    assert(s@.take(s@.len() as int) =~= s@);
    out
}

/// The pieces of `s` between one `p` and the next.
pub fn split(s: &[char], p: &[char]) -> (r: Vec<Vec<char>>)
    requires
        p@.len() > 0,
    ensures
        pieces(r@) == split_all(s@, p@),
{
    let mut out: Vec<Vec<char>> = Vec::new();
    let mut rest: &[char] = s;
    assert(pieces(out@) + split_all(rest@, p@) =~= split_all(s@, p@));
    loop
        invariant
            p@.len() > 0,
            pieces(out@) + split_all(rest@, p@) == split_all(s@, p@),
        decreases rest@.len(),
    {
        match cut(rest, p) {
            Some((head, tail)) => {
                proof {
                    lemma_find(rest@, p@, 0);
                }
                let ghost before = out@;
                out.push(copy(head));
                assert(pieces(out@) =~= pieces(before).push(head@));
                assert(pieces(before) + (seq![head@] + split_all(tail@, p@)) =~= pieces(out@)
                    + split_all(tail@, p@));
                rest = tail;
            },
            None => {
                let ghost before = out@;
                out.push(copy(rest));
                assert(pieces(out@) =~= pieces(before) + seq![rest@]);
                return out;
            },
        }
    }
}

/// `s` without the `p` it begins with.
pub fn after_prefix<'a>(s: &'a [char], p: &[char]) -> (r: Option<&'a [char]>)
    ensures
        match r {
            Some(a) => strip_prefix(s@, p@) == Some(a@),
            None => strip_prefix(s@, p@) is None,
        },
{
    if matches_at(s, p, 0) {
        let a = slice_subrange(s, p.len(), s.len());
        assert(a@ =~= s@.skip(p@.len() as int));
        Some(a)
    } else {
        None
    }
}

/// `s` without the `c`s at its end.
pub fn without_end<'a>(s: &'a [char], c: char) -> (r: &'a [char])
    ensures
        r@ == trim_end_of(s@, c),
{
    let mut n: usize = s.len();
    assert(s@.take(n as int) =~= s@);
    while n > 0 && s[n - 1] == c
        invariant
            n <= s@.len(),
            trim_end_of(s@.take(n as int), c) == trim_end_of(s@, c),
        decreases n,
    {
        assert(s@.take(n as int).drop_last() =~= s@.take(n - 1));
        n -= 1;
    }
    let r = slice_subrange(s, 0, n);
    assert(r@ =~= s@.take(n as int));
    r
}

/// `s` without the white space around it.
pub fn trimmed<'a>(s: &'a [char]) -> (r: &'a [char])
    ensures
        r@ == trim(s@),
{
    let mut a: usize = 0;
    assert(s@.skip(0) =~= s@);
    while a < s.len() && is_white_space(s[a])
        invariant
            a <= s@.len(),
            trim_start(s@.skip(a as int)) == trim_start(s@),
        decreases s@.len() - a,
    {
        assert(s@.skip(a as int).skip(1) =~= s@.skip(a + 1));
        a += 1;
    }
    let inner = slice_subrange(s, a, s.len());
    assert(inner@ =~= s@.skip(a as int));
    let mut n: usize = inner.len();
    assert(inner@.take(n as int) =~= inner@);
    while n > 0 && is_white_space(inner[n - 1])
        invariant
            n <= inner@.len(),
            trim_end(inner@.take(n as int)) == trim_end(inner@),
        decreases n,
    {
        assert(inner@.take(n as int).drop_last() =~= inner@.take(n - 1));
        n -= 1;
    }
    let r = slice_subrange(inner, 0, n);
    assert(r@ =~= inner@.take(n as int));
    r
}

/// The lines of `s`.
pub fn split_lines(s: &[char]) -> (r: Vec<Vec<char>>)
    ensures
        pieces(r@) == lines(s@),
{
    let mut out: Vec<Vec<char>> = Vec::new();
    let mut rest: &[char] = s;
    let feed: [char; 1] = ['\n'];
    assert(feed@ =~= seq!['\n']);
    assert(pieces(out@) + lines(rest@) =~= lines(s@));
    while rest.len() > 0
        invariant
            feed@ == seq!['\n'],
            pieces(out@) + lines(rest@) == lines(s@),
        decreases rest@.len(),
    {
        let ghost before = out@;
        match cut(rest, &feed) {
            Some((head, tail)) => {
                proof {
                    lemma_find(rest@, feed@, 0);
                }
                let mut line = copy(head);
                if line.len() > 0 && line[line.len() - 1] == '\r' {
                    line.pop();
                    assert(line@ =~= head@.drop_last());
                }
                out.push(line);
                assert(pieces(out@) =~= pieces(before).push(without_return(head@)));
                assert(pieces(before) + (seq![without_return(head@)] + lines(tail@)) =~= pieces(
                    out@,
                ) + lines(tail@));
                rest = tail;
            },
            None => {
                out.push(copy(rest));
                assert(pieces(out@) =~= pieces(before) + seq![rest@]);
                return out;
            },
        }
    }
    assert(pieces(out@) + lines(rest@) =~= pieces(out@));
    out
}

/// The number in front of a digit is at most the number with the digit.
proof fn lemma_digits_value_prefix(s: Seq<char>, n: int)
    requires
        0 <= n <= s.len(),
    ensures
        digits_value(s.take(n)) <= digits_value(s),
    decreases s.len(),
{
    if n < s.len() {
        lemma_digits_value_prefix(s.drop_last(), n);
        assert(s.drop_last().take(n) =~= s.take(n));
    } else {
        assert(s.take(n) =~= s);
    }
}

/// The unsigned number `s` spells, when it is at most `max`.
pub fn parse_unsigned(s: &[char], max: u64) -> (r: Option<u64>)
    ensures
        match r {
            Some(n) => unsigned(s@, max as nat) == Some(n as nat),
            None => unsigned(s@, max as nat) is None,
        },
{
    let start: usize = if s.len() > 0 && s[0] == '+' {
        1
    } else {
        0
    };
    let digits = slice_subrange(s, start, s.len());
    assert(digits@ =~= unsigned_digits(s@));
    if digits.len() == 0 {
        return None;
    }
    let mut n: u64 = 0;
    let mut i: usize = 0;
    while i < digits.len()
        invariant
            digits@ == unsigned_digits(s@),
            i <= digits@.len(),
            n == digits_value(digits@.take(i as int)),
            n <= max,
            forall|j: int| 0 <= j < i ==> is_digit(#[trigger] digits@[j]),
        decreases digits@.len() - i,
    {
        let c: char = digits[i];
        if !('0' <= c && c <= '9') {
            assert(!is_digit(digits@[i as int]));
            return None;
        }
        let d: u64 = c as u64 - '0' as u64;
        assert(digits@.take(i + 1).drop_last() =~= digits@.take(i as int));
        proof {
            lemma_digits_value_prefix(digits@, i + 1);
        }
        if n > max / 10 || d > max - n * 10 {
            return None;
        }
        n = n * 10 + d;
        i += 1;
    }
    assert(digits@.take(i as int) =~= digits@);
    Some(n)
}

} // verus!
