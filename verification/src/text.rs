//! Small verified text utilities: moving between `str`, `String` and
//! `Vec<char>`, and rendering a number in decimal.

use vstd::prelude::*;
use vstd::string::StrSliceExecFns;

verus! {

/// Relies on `String::push`: appends the given character to the end of the
/// string.
#[verifier::external_body]
fn push_char(s: &mut String, c: char)
    ensures
        final(s)@ == old(s)@ + seq![c],
{
    s.push(c);
}

/// The characters of `s`, in order, as a vector.
pub fn str_to_chars(s: &str) -> (v: Vec<char>)
    ensures
        v@ == s@,
{
    let n = s.unicode_len();
    let mut v: Vec<char> = Vec::new();
    let mut i: usize = 0;
    while i < n
        invariant
            n == s@.len(),
            i <= n,
            v@ == s@.subrange(0, i as int),
        decreases n - i,
    {
        v.push(s.get_char(i));
        i = i + 1;
        assert(v@ =~= s@.subrange(0, i as int));
    }
    assert(v@ =~= s@);
    v
}

/// The characters of `v`, in order, as an owned string.
pub fn chars_to_string(v: &Vec<char>) -> (s: String)
    ensures
        s@ == v@,
{
    let mut s = String::new();
    let mut i: usize = 0;
    while i < v.len()
        invariant
            i <= v@.len(),
            s@ == v@.subrange(0, i as int),
        decreases v@.len() - i,
    {
        push_char(&mut s, v[i]);
        i = i + 1;
        assert(s@ =~= v@.subrange(0, i as int));
    }
    assert(s@ =~= v@);
    s
}

/// The decimal digit character for `d`.
pub open spec fn spec_digit(d: nat) -> char {
    if d == 0 {
        '0'
    } else if d == 1 {
        '1'
    } else if d == 2 {
        '2'
    } else if d == 3 {
        '3'
    } else if d == 4 {
        '4'
    } else if d == 5 {
        '5'
    } else if d == 6 {
        '6'
    } else if d == 7 {
        '7'
    } else if d == 8 {
        '8'
    } else {
        '9'
    }
}

/// The usual decimal rendering of `n`, most significant digit first, with
/// no leading zero except for zero itself.
pub open spec fn spec_dec(n: nat) -> Seq<char>
    decreases n,
{
    if n < 10 {
        seq![spec_digit(n)]
    } else {
        spec_dec(n / 10) + seq![spec_digit(n % 10)]
    }
}

fn digit_char(d: usize) -> (c: char)
    requires
        d < 10,
    ensures
        c == spec_digit(d as nat),
{
    if d == 0 {
        '0'
    } else if d == 1 {
        '1'
    } else if d == 2 {
        '2'
    } else if d == 3 {
        '3'
    } else if d == 4 {
        '4'
    } else if d == 5 {
        '5'
    } else if d == 6 {
        '6'
    } else if d == 7 {
        '7'
    } else if d == 8 {
        '8'
    } else {
        '9'
    }
}

/// `n` written in decimal.
pub fn dec_string(n: usize) -> (s: String)
    ensures
        s@ == spec_dec(n as nat),
    decreases n,
{
    let d = digit_char(n % 10);
    if n < 10 {
        let mut s = String::new();
        push_char(&mut s, d);
        assert(s@ =~= spec_dec(n as nat));
        s
    } else {
        let mut s = dec_string(n / 10);
        push_char(&mut s, d);
        assert(s@ =~= spec_dec(n as nat));
        s
    }
}

} // verus!
