//! Small string helpers the library builds its text with.
use crate::typing::typing_test::split_on_space;
use vstd::prelude::*;
use vstd::string::StrSliceExecFns;

verus! {

/// Calls `String::push`: appends one character.
#[verifier::external_body]
pub(crate) fn push_char(s: &mut String, c: char)
    ensures
        final(s)@ == old(s)@.push(c),
{
    s.push(c);
}

/// The decimal digit `d` as a character.
pub open spec fn digit_char(d: nat) -> char {
    if d == 0 {
        '0'
    } else if d == 1 {
        '1'
    } else if d == 2 {
        '2'
    } else if d == 3 {
        '3'
    } else if d == 4 {
        '4'
    } else if d == 5 {
        '5'
    } else if d == 6 {
        '6'
    } else if d == 7 {
        '7'
    } else if d == 8 {
        '8'
    } else {
        '9'
    }
}

/// `n` written in decimal, without leading zeros.
pub open spec fn decimal(n: nat) -> Seq<char>
    decreases n,
{
    if n < 10 {
        seq![digit_char(n)]
    } else {
        decimal(n / 10).push(digit_char(n % 10))
    }
}

fn digit(d: usize) -> (c: char)
    requires
        d < 10,
    ensures
        c == digit_char(d as nat),
{
    match d {
        0 => '0',
        1 => '1',
        2 => '2',
        3 => '3',
        4 => '4',
        5 => '5',
        6 => '6',
        7 => '7',
        8 => '8',
        _ => '9',
    }
}

/// Appends `n`, written in decimal, to `s`.
pub fn push_decimal(s: &mut String, n: usize)
    ensures
        final(s)@ == old(s)@ + decimal(n as nat),
    decreases n,
{
    if n >= 10 {
        push_decimal(s, n / 10);
    }
    push_char(s, digit(n % 10));
    assert(old(s)@ + decimal(n as nat) =~= if n >= 10 {
        (old(s)@ + decimal((n / 10) as nat)).push(digit_char((n % 10) as nat))
    } else {
        old(s)@.push(digit_char(n as nat))
    });
}

/// `n` written in decimal.
pub fn decimal_string(n: usize) -> (s: String)
    ensures
        s@ == decimal(n as nat),
{
    let mut s = String::new();
    push_decimal(&mut s, n);
    assert(Seq::<char>::empty() + decimal(n as nat) =~= decimal(n as nat));
    s
}

/// The literal `t` as an owned string.
pub fn owned(t: &str) -> (s: String)
    ensures
        s@ == t@,
{
    t.to_owned()
}

/// The words in `ws`, separated by single spaces.
pub open spec fn joined(ws: Seq<Seq<char>>) -> Seq<char>
    decreases ws.len(),
{
    if ws.len() == 0 {
        Seq::empty()
    } else if ws.len() == 1 {
        ws[0]
    } else {
        joined(ws.drop_last()) + seq![' '] + ws.last()
    }
}

/// Whether `a` and `b` hold the same characters.
pub fn str_eq(a: &str, b: &str) -> (res: bool)
    ensures
        res == (a@ == b@),
{
    a.to_owned() == b.to_owned()
}

/// The pieces of `text` between single spaces, in order: one more piece
/// than there are spaces, empty pieces included.
pub fn split_words<'a>(text: &'a str) -> (words: Vec<&'a str>)
    ensures
        words@.map_values(|w: &str| w@) == split_on_space(text@),
{
    let len = text.unicode_len();
    let mut words: Vec<&'a str> = Vec::new();
    let mut start: usize = 0;
    let mut k: usize = 0;
    assert(text@.take(0) =~= Seq::<char>::empty());
    assert(words@.map_values(|w: &str| w@).push(text@.subrange(0, 0)) =~= seq![
        Seq::<char>::empty(),
    ]);
    for c in iter: text.chars()
        invariant
            iter.seq() == text@,
            len == text@.len(),
            k == iter.index(),
            start <= k,
            words@.map_values(|w: &str| w@).push(text@.subrange(start as int, k as int))
                == split_on_space(text@.take(k as int)),
    {
        let ghost before = words@.map_values(|w: &str| w@);
        assert(text@.take(k + 1).drop_last() =~= text@.take(k as int));
        assert(text@.take(k + 1).last() == c);
        if c == ' ' {
            words.push(text.substring_char(start, k));
            assert(words@.map_values(|w: &str| w@) =~= before.push(
                text@.subrange(start as int, k as int),
            ));
            start = k + 1;
            assert(text@.subrange(start as int, k + 1) =~= Seq::<char>::empty());
        } else {
            assert(text@.subrange(start as int, k + 1) =~= text@.subrange(
                start as int,
                k as int,
            ).push(c));
        }
        k += 1;
    }
    words.push(text.substring_char(start, len));
    assert(text@.take(len as int) =~= text@);
    words
}

} // verus!
