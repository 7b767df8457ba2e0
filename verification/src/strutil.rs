//! Shared text utilities: decimal rendering of integers, line views of a
//! vector of strings, joining lines, and splitting a source text into lines.

use vstd::prelude::*;
use vstd::string::StringExecFns;

verus! {

/// The decimal digit character for a single digit value.
pub open spec fn dec_digit(d: nat) -> char {
    ((d + 48) as u8) as char
}

/// The decimal rendering of a natural number, as a sequence of digit
/// characters without sign or leading zeros (except for zero itself).
pub open spec fn dec_str(n: nat) -> Seq<char>
    decreases n,
{
    if n < 10 {
        seq![dec_digit(n)]
    } else {
        dec_str(n / 10).push(dec_digit(n % 10))
    }
}

/// The view of each string in a sequence of strings.
pub open spec fn lines_view(v: Seq<String>) -> Seq<Seq<char>> {
    Seq::new(v.len(), |i: int| v[i]@)
}

/// Appends one character to a string.
///
/// Relies on std's String::push: appends the character to the end.
#[verifier::external_body]
pub fn push_char(s: &mut String, c: char)
    ensures
        final(s)@ == old(s)@.push(c),
{
    s.push(c);
}

fn digit_char(d: u64) -> (c: char)
    requires
        d < 10,
    ensures
        c == dec_digit(d as nat),
{
    ((d as u8) + 48) as char
}

pub fn u64_to_string(n: u64) -> (s: String)
    ensures
        s@ == dec_str(n as nat),
    decreases n,
{
    if n < 10 {
        let mut s = String::new();
        push_char(&mut s, digit_char(n));
        assert(s@ =~= dec_str(n as nat));
        s
    } else {
        let mut s = u64_to_string(n / 10);
        push_char(&mut s, digit_char(n % 10));
        s
    }
}

pub fn u128_to_string(n: u128) -> (s: String)
    ensures
        s@ == dec_str(n as nat),
    decreases n,
{
    if n < 10 {
        let mut s = String::new();
        push_char(&mut s, digit_char((n % 10) as u64));
        assert(s@ =~= dec_str(n as nat));
        s
    } else {
        let mut s = u128_to_string(n / 10);
        push_char(&mut s, digit_char((n % 10) as u64));
        s
    }
}

pub fn usize_to_string(n: usize) -> (s: String)
    ensures
        s@ == dec_str(n as nat),
{
    u64_to_string(n as u64)
}

pub fn u32_to_string(n: u32) -> (s: String)
    ensures
        s@ == dec_str(n as nat),
{
    u64_to_string(n as u64)
}

/// Pushes one more line onto a vector of lines.
pub fn push_line(out: &mut Vec<String>, s: &str)
    ensures
        final(out)@.len() == old(out)@.len() + 1,
        lines_view(final(out)@) == lines_view(old(out)@).push(s@),
{
    out.push(String::from_str(s));
    proof {
        assert(lines_view(out@) =~= lines_view(old(out)@).push(s@));
    }
}

/// Pushes an already built string onto a vector of lines.
pub fn push_line_string(out: &mut Vec<String>, s: String)
    ensures
        final(out)@.len() == old(out)@.len() + 1,
        lines_view(final(out)@) == lines_view(old(out)@).push(s@),
{
    let ghost v = s@;
    out.push(s);
    proof {
        assert(lines_view(out@) =~= lines_view(old(out)@).push(v));
    }
}

/// Concatenates two string slices.
pub fn concat2(a: &str, b: &str) -> (s: String)
    ensures
        s@ == a@ + b@,
{
    let mut s = String::from_str(a);
    s.append(b);
    s
}

/// Concatenates three string slices.
pub fn concat3(a: &str, b: &str, c: &str) -> (s: String)
    ensures
        s@ == a@ + b@ + c@,
{
    let mut s = String::from_str(a);
    s.append(b);
    s.append(c);
    s
}

/// The text that results from joining a sequence of lines with a newline
/// between each pair of adjacent lines.
pub open spec fn join_lines(lines: Seq<Seq<char>>) -> Seq<char>
    decreases lines.len(),
{
    if lines.len() == 0 {
        Seq::empty()
    } else if lines.len() == 1 {
        lines[0]
    } else {
        join_lines(lines.drop_last()) + seq!['\n'] + lines.last()
    }
}

/// Joins the given lines with single newlines.
pub fn join(v: &Vec<String>) -> (s: String)
    ensures
        s@ == join_lines(lines_view(v@)),
{
    let mut s = String::new();
    let mut i: usize = 0;
    while i < v.len()
        invariant
            i <= v@.len(),
            s@ == join_lines(lines_view(v@).take(i as int)),
        decreases v@.len() - i,
    {
        if i > 0 {
            push_char(&mut s, '\n');
        }
        s.append(v[i].as_str());
        proof {
            let pre = lines_view(v@).take(i as int);
            let post = lines_view(v@).take(i + 1 as int);
            assert(post.drop_last() =~= pre);
            assert(post.last() == v@[i as int]@);
            if i > 0 {
                assert(s@ =~= join_lines(pre) + seq!['\n'] + v@[i as int]@);
            } else {
                assert(s@ =~= v@[i as int]@);
            }
        }
        i = i + 1;
    }
    proof {
        assert(lines_view(v@).take(v@.len() as int) =~= lines_view(v@));
    }
    s
}

} // verus!
