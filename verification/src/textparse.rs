//! Character-level parsing helpers shared by the three front ends:
//! splitting a text into lines, skipping spaces, finding token ends,
//! matching keywords, and reading unsigned decimal numbers.

use vstd::prelude::*;
use vstd::string::StrSliceExecFns;

use crate::strutil::push_char;

verus! {

/// A space or a tab: the blanks accepted inside a line.
pub open spec fn is_space_char(c: char) -> bool {
    c == ' ' || c == '\t'
}

/// A decimal digit.
pub open spec fn is_digit_char(c: char) -> bool {
    (c as u32) >= 48 && (c as u32) <= 57
}

/// The value of one decimal digit.
pub open spec fn digit_val(c: char) -> int {
    (c as u32) - 48
}

/// Every character of the sequence is a decimal digit.
pub open spec fn all_digits(s: Seq<char>) -> bool {
    forall|k: int| 0 <= k < s.len() ==> is_digit_char(#[trigger] s[k])
}

/// The value of a decimal digit string, most significant digit first.
pub open spec fn dec_val(s: Seq<char>) -> int
    decreases s.len(),
{
    if s.len() == 0 {
        0
    } else {
        dec_val(s.drop_last()) * 10 + digit_val(s.last())
    }
}

pub proof fn lemma_dec_val_nonneg(s: Seq<char>)
    requires
        all_digits(s),
    ensures
        dec_val(s) >= 0,
    decreases s.len(),
{
    if s.len() > 0 {
        assert(all_digits(s.drop_last())) by {
            assert(forall|k: int|
                0 <= k < s.len() - 1 ==> is_digit_char(#[trigger] s.drop_last()[k]));
        }
        lemma_dec_val_nonneg(s.drop_last());
        assert(is_digit_char(s[s.len() - 1]));
        assert(s.last() == s[s.len() - 1]);
    }
}

/// Appending digits can only grow the value.
pub proof fn lemma_dec_val_prefix_le(s: Seq<char>, i: int)
    requires
        all_digits(s),
        0 <= i <= s.len(),
    ensures
        dec_val(s.take(i)) <= dec_val(s),
    decreases s.len() - i,
{
    if i < s.len() {
        lemma_dec_val_prefix_le(s, i + 1);
        let t = s.take(i + 1);
        assert(t.drop_last() =~= s.take(i));
        assert(all_digits(t)) by {
            assert(forall|k: int| 0 <= k < t.len() ==> is_digit_char(#[trigger] t[k]));
        }
        lemma_dec_val_nonneg(t.drop_last());
        assert(is_digit_char(s[i]));
        assert(t.last() == s[i]);
        assert(dec_val(t) == dec_val(s.take(i)) * 10 + digit_val(t.last()));
    } else {
        assert(s.take(i) =~= s);
    }
}

/// The first position at or after `i` that is not a space or tab.
pub open spec fn skip_spaces(s: Seq<char>, i: int) -> int
    decreases s.len() - i,
{
    if 0 <= i && i < s.len() && is_space_char(s[i]) {
        skip_spaces(s, i + 1)
    } else {
        i
    }
}

/// The first position at or after `i` that is a space, a tab, or the end:
/// the end of the token starting at `i`.
pub open spec fn token_end(s: Seq<char>, i: int) -> int
    decreases s.len() - i,
{
    if 0 <= i && i < s.len() && !is_space_char(s[i]) {
        token_end(s, i + 1)
    } else {
        i
    }
}

/// The word `w` occurs in `s` starting at position `i`.
pub open spec fn starts_with(s: Seq<char>, i: int, w: Seq<char>) -> bool {
    0 <= i && i + w.len() <= s.len() && s.subrange(i, i + w.len()) == w
}

/// The token starting at `i` is exactly the word `w`: it occurs there and
/// is followed by a blank or the end of the line.
pub open spec fn token_is(s: Seq<char>, i: int, w: Seq<char>) -> bool {
    starts_with(s, i, w) && (i + w.len() == s.len() || is_space_char(s[i + w.len()]))
}

/// From position `p` on, the line holds only blanks, optionally followed
/// by a `//` comment.
pub open spec fn line_end_ok(s: Seq<char>, p: int) -> bool {
    let q = skip_spaces(s, p);
    q == s.len() || starts_with(s, q, "//"@)
}

/// The characters of a string slice, as a vector.
pub fn str_to_chars(s: &str) -> (v: Vec<char>)
    ensures
        v@ == s@,
{
    let n = s.unicode_len();
    let mut v: Vec<char> = Vec::new();
    let mut i: usize = 0;
    while i < n
        invariant
            n == s@.len(),
            i <= n,
            v@ == s@.take(i as int),
        decreases n - i,
    {
        let c = s.get_char(i);
        v.push(c);
        proof {
            assert(v@ =~= s@.take(i + 1));
        }
        i = i + 1;
    }
    proof {
        assert(s@.take(n as int) =~= s@);
    }
    v
}

/// Builds a string out of a range of a character vector.
pub fn chars_to_string(v: &Vec<char>, start: usize, end: usize) -> (s: String)
    requires
        start <= end <= v@.len(),
    ensures
        s@ == v@.subrange(start as int, end as int),
{
    let mut s = String::new();
    let mut i: usize = start;
    while i < end
        invariant
            start <= i <= end <= v@.len(),
            s@ == v@.subrange(start as int, i as int),
        decreases end - i,
    {
        push_char(&mut s, v[i]);
        proof {
            assert(v@.subrange(start as int, i + 1) =~= v@.subrange(start as int, i as int).push(
                v@[i as int],
            ));
        }
        i = i + 1;
    }
    s
}

/// Skips blanks from `i` on.
pub fn skip_spaces_exec(v: &Vec<char>, i: usize) -> (r: usize)
    requires
        i <= v@.len(),
    ensures
        r == skip_spaces(v@, i as int),
        i <= r <= v@.len(),
{
    let mut j = i;
    while j < v.len() && (v[j] == ' ' || v[j] == '\t')
        invariant
            i <= j <= v@.len(),
            skip_spaces(v@, i as int) == skip_spaces(v@, j as int),
        decreases v@.len() - j,
    {
        j = j + 1;
    }
    j
}

/// Finds the end of the token starting at `i`.
pub fn token_end_exec(v: &Vec<char>, i: usize) -> (r: usize)
    requires
        i <= v@.len(),
    ensures
        r == token_end(v@, i as int),
        i <= r <= v@.len(),
{
    let mut j = i;
    while j < v.len() && !(v[j] == ' ' || v[j] == '\t')
        invariant
            i <= j <= v@.len(),
            token_end(v@, i as int) == token_end(v@, j as int),
        decreases v@.len() - j,
    {
        j = j + 1;
    }
    j
}

/// Tests whether the word `w` occurs at position `i`.
pub fn starts_with_exec(v: &Vec<char>, i: usize, w: &str) -> (b: bool)
    requires
        i <= v@.len(),
    ensures
        b == starts_with(v@, i as int, w@),
{
    let n = w.unicode_len();
    if n > v.len() - i {
        proof {
            assert(!starts_with(v@, i as int, w@));
        }
        return false;
    }
    let mut k: usize = 0;
    while k < n
        invariant
            i + n <= v@.len(),
            v@.len() <= usize::MAX,
            n == w@.len(),
            k <= n,
            v@.subrange(i as int, i + k) == w@.take(k as int),
        decreases n - k,
    {
        let c = v[i + k];
        if c != w.get_char(k) {
            proof {
                assert(v@.subrange(i as int, i + n as int)[k as int] != w@[k as int]);
            }
            return false;
        }
        proof {
            assert(v@.subrange(i as int, i + k + 1) =~= v@.subrange(i as int, i + k).push(
                v@[i + k],
            ));
            assert(w@.take(k + 1) =~= w@.take(k as int).push(w@[k as int]));
        }
        k = k + 1;
    }
    proof {
        assert(v@.subrange(i as int, i + n as int) =~= w@.take(n as int));
        assert(w@.take(n as int) =~= w@);
    }
    true
}

/// Tests whether the characters `[j, te)` are exactly the word `w`.
pub fn token_eq(v: &Vec<char>, j: usize, te: usize, w: &str) -> (b: bool)
    requires
        j <= te <= v@.len(),
    ensures
        b == (v@.subrange(j as int, te as int) == w@),
{
    let n = w.unicode_len();
    if te - j != n {
        proof {
            assert(v@.subrange(j as int, te as int).len() != w@.len());
        }
        return false;
    }
    let b = starts_with_exec(v, j, w);
    proof {
        if b {
            assert(v@.subrange(j as int, j + n as int) =~= v@.subrange(j as int, te as int));
        } else {
            assert(v@.subrange(j as int, te as int) =~= v@.subrange(j as int, j + n as int));
        }
    }
    b
}

/// Tests whether the token starting at `i` is exactly the word `w`.
pub fn token_is_exec(v: &Vec<char>, i: usize, w: &str) -> (b: bool)
    requires
        i <= v@.len(),
    ensures
        b == token_is(v@, i as int, w@),
{
    if !starts_with_exec(v, i, w) {
        return false;
    }
    let n = w.unicode_len();
    let len = v.len();
    proof {
        assert(i + n <= v@.len());
    }
    let boundary = i + n;
    if boundary == len {
        true
    } else {
        let c = v[boundary];
        c == ' ' || c == '\t'
    }
}

/// Tests that the line holds nothing but blanks and an optional comment
/// from position `p` on.
pub fn line_end_ok_exec(v: &Vec<char>, p: usize) -> (b: bool)
    requires
        p <= v@.len(),
    ensures
        b == line_end_ok(v@, p as int),
{
    let q = skip_spaces_exec(v, p);
    if q == v.len() {
        true
    } else {
        starts_with_exec(v, q, "//")
    }
}

/// Reads the digit token `[start, end)` as an unsigned number no greater
/// than `max`; yields nothing for an empty token, a non-digit, or a value
/// above `max`.
pub fn parse_digits(v: &Vec<char>, start: usize, end: usize, max: u64) -> (r: Option<u64>)
    requires
        start <= end <= v@.len(),
        max <= 0xFFFF_FFFF,
    ensures
        ({
            let tok = v@.subrange(start as int, end as int);
            if start < end && all_digits(tok) && dec_val(tok) <= max as int {
                r matches Some(n) && n as int == dec_val(tok)
            } else {
                r is None
            }
        }),
{
    let ghost tok = v@.subrange(start as int, end as int);
    if start == end {
        return None;
    }
    let mut val: u64 = 0;
    let mut k: usize = start;
    while k < end
        invariant
            start <= k <= end <= v@.len(),
            tok == v@.subrange(start as int, end as int),
            max <= 0xFFFF_FFFF,
            all_digits(tok.take(k - start)),
            val as int == dec_val(tok.take(k - start)),
            val <= max,
        decreases end - k,
    {
        let c = v[k];
        let code = c as u32;
        if !(code >= 48 && code <= 57) {
            proof {
                assert(tok[k - start] == v@[k as int]);
                assert(!is_digit_char(tok[k - start]));
            }
            return None;
        }
        let d: u64 = (code as u64) - 48;
        proof {
            assert(tok.take(k - start + 1).drop_last() =~= tok.take(k - start));
            assert(tok.take(k - start + 1).last() == v@[k as int]);
            assert(all_digits(tok.take(k - start + 1))) by {
                assert(forall|q: int|
                    0 <= q < k - start + 1 ==> is_digit_char(#[trigger] tok.take(k - start + 1)[q]));
            }
        }
        let next: u64 = val * 10 + d;
        if next > max {
            proof {
                assert(dec_val(tok.take(k - start + 1)) == next as int);
                if all_digits(tok) {
                    lemma_dec_val_prefix_le(tok, k - start + 1);
                    assert(dec_val(tok) > max as int);
                }
            }
            return None;
        }
        val = next;
        k = k + 1;
    }
    proof {
        assert(tok.take(end - start) =~= tok);
    }
    Some(val)
}

/// One source text as a sequence of lines: split at each newline, with a
/// carriage return at a line's end dropped; a final newline ends the last
/// line rather than opening an empty one.
pub open spec fn spec_lines(s: Seq<char>) -> Seq<Seq<char>>
    decreases s.len(),
{
    if s.len() == 0 {
        Seq::empty()
    } else {
        let j = line_break(s, 0);
        if 0 <= j && j < s.len() {
            seq![strip_cr(s.take(j))] + spec_lines(s.skip(j + 1))
        } else {
            seq![strip_cr(s)]
        }
    }
}

/// The position of the first newline at or after `i`, or the length.
pub open spec fn line_break(s: Seq<char>, i: int) -> int
    decreases s.len() - i,
{
    if 0 <= i && i < s.len() && s[i] != '\n' {
        line_break(s, i + 1)
    } else {
        i
    }
}

pub proof fn lemma_line_break_bounds(s: Seq<char>, i: int)
    requires
        0 <= i <= s.len(),
    ensures
        i <= line_break(s, i) <= s.len(),
    decreases s.len() - i,
{
    if i < s.len() && s[i] != '\n' {
        lemma_line_break_bounds(s, i + 1);
    }
}

/// A line with a trailing carriage return removed.
pub open spec fn strip_cr(l: Seq<char>) -> Seq<char> {
    if l.len() > 0 && l.last() == '\r' {
        l.drop_last()
    } else {
        l
    }
}

/// Splits a text into its lines.
pub fn split_lines(text: &str) -> (r: Vec<String>)
    ensures
        crate::strutil::lines_view(r@) == spec_lines(text@),
{
    let v = str_to_chars(text);
    let mut out: Vec<String> = Vec::new();
    let mut i: usize = 0;
    proof {
        assert(v@.skip(0) =~= v@);
    }
    while i < v.len()
        invariant
            i <= v@.len(),
            v@ == text@,
            spec_lines(text@) == crate::strutil::lines_view(out@) + spec_lines(v@.skip(i as int)),
        decreases v@.len() - i,
    {
        let ghost sfx = v@.skip(i as int);
        let j = find_newline(&v, i);
        let line_end = if j > i {
            let prev = v[j - 1];
            if prev == '\r' {
                j - 1
            } else {
                j
            }
        } else {
            j
        };
        let line = chars_to_string(&v, i, line_end);
        proof {
            assert(line_break(sfx, 0) == j - i) by {
                lemma_line_break_shift(v@, i as int, i as int);
            }
            if j == v@.len() {
                assert(sfx.take(j - i) =~= sfx);
                assert(strip_cr(sfx) == line@) by {
                    assert(sfx =~= v@.subrange(i as int, j as int));
                    if j > i && v@[j - 1] == '\r' {
                        assert(sfx.drop_last() =~= v@.subrange(i as int, j - 1));
                    }
                }
                assert(spec_lines(sfx) =~= seq![line@]);
            } else {
                assert(strip_cr(sfx.take(j - i)) == line@) by {
                    assert(sfx.take(j - i) =~= v@.subrange(i as int, j as int));
                    if j > i && v@[j - 1] == '\r' {
                        assert(sfx.take(j - i).drop_last() =~= v@.subrange(i as int, j - 1));
                    }
                }
                assert(sfx.skip(j - i + 1) =~= v@.skip(j + 1));
                assert(spec_lines(sfx) =~= seq![line@] + spec_lines(v@.skip(j + 1)));
            }
        }
        let ghost pre = crate::strutil::lines_view(out@);
        crate::strutil::push_line_string(&mut out, line);
        if j == v.len() {
            i = j;
            proof {
                assert(v@.skip(i as int) =~= Seq::<char>::empty());
                assert(pre + seq![line@] =~= pre.push(line@) + spec_lines(v@.skip(i as int)));
            }
        } else {
            i = j + 1;
            proof {
                assert(pre + (seq![line@] + spec_lines(v@.skip(i as int))) =~= pre.push(line@)
                    + spec_lines(v@.skip(i as int)));
            }
        }
    }
    proof {
        assert(v@.skip(i as int) =~= Seq::<char>::empty());
        assert(crate::strutil::lines_view(out@) + spec_lines(v@.skip(i as int))
            =~= crate::strutil::lines_view(out@));
    }
    out
}

/// The first-newline search, shifted onto a suffix of the text.
pub proof fn lemma_line_break_shift(s: Seq<char>, i: int, k: int)
    requires
        0 <= k <= i <= s.len(),
    ensures
        line_break(s.skip(k), i - k) == line_break(s, i) - k,
    decreases s.len() - i,
{
    lemma_line_break_bounds(s, i);
    if i < s.len() && s[i] != '\n' {
        lemma_line_break_shift(s, i + 1, k);
    }
}

/// Finds the first newline at or after `i`, or the length.
pub fn find_newline(v: &Vec<char>, i: usize) -> (r: usize)
    requires
        i <= v@.len(),
    ensures
        r == line_break(v@, i as int),
        i <= r <= v@.len(),
{
    let mut j = i;
    while j < v.len() && v[j] != '\n'
        invariant
            i <= j <= v@.len(),
            line_break(v@, i as int) == line_break(v@, j as int),
        decreases v@.len() - j,
    {
        j = j + 1;
    }
    j
}

/// An ASCII letter.
pub open spec fn is_alpha_char(c: char) -> bool {
    ((c as u32) >= 65 && (c as u32) <= 90) || ((c as u32) >= 97 && (c as u32) <= 122)
}

/// A character that may continue an assembly symbol: a letter, a digit,
/// an underscore, a dot, or a dollar sign.
pub open spec fn is_name_char(c: char) -> bool {
    is_alpha_char(c) || is_digit_char(c) || c == '_' || c == '.' || c == '$'
}

/// The end of the run of symbol characters starting at `i`.
pub open spec fn name_end(s: Seq<char>, i: int) -> int
    decreases s.len() - i,
{
    if 0 <= i && i < s.len() && is_name_char(s[i]) {
        name_end(s, i + 1)
    } else {
        i
    }
}

/// The end of the run of digits starting at `i`.
pub open spec fn digits_end(s: Seq<char>, i: int) -> int
    decreases s.len() - i,
{
    if 0 <= i && i < s.len() && is_digit_char(s[i]) {
        digits_end(s, i + 1)
    } else {
        i
    }
}

pub proof fn lemma_digits_end_bounds(s: Seq<char>, i: int)
    requires
        0 <= i <= s.len(),
    ensures
        i <= digits_end(s, i) <= s.len(),
    decreases s.len() - i,
{
    if i < s.len() && is_digit_char(s[i]) {
        lemma_digits_end_bounds(s, i + 1);
    }
}

/// Tests whether a character is an ASCII letter.
pub fn is_alpha_exec(c: char) -> (b: bool)
    ensures
        b == is_alpha_char(c),
{
    let code = c as u32;
    (code >= 65 && code <= 90) || (code >= 97 && code <= 122)
}

/// Tests whether a character may continue an assembly symbol.
pub fn is_name_char_exec(c: char) -> (b: bool)
    ensures
        b == is_name_char(c),
{
    let code = c as u32;
    is_alpha_exec(c) || (code >= 48 && code <= 57) || c == '_' || c == '.' || c == '$'
}

/// Finds the end of the run of symbol characters starting at `i`.
pub fn name_end_exec(v: &Vec<char>, i: usize) -> (r: usize)
    requires
        i <= v@.len(),
    ensures
        r == name_end(v@, i as int),
        i <= r <= v@.len(),
{
    let mut j = i;
    while j < v.len() && is_name_char_exec(v[j])
        invariant
            i <= j <= v@.len(),
            name_end(v@, i as int) == name_end(v@, j as int),
        decreases v@.len() - j,
    {
        j = j + 1;
    }
    j
}

/// Finds the end of the run of digits starting at `i`.
pub fn digits_end_exec(v: &Vec<char>, i: usize) -> (r: usize)
    requires
        i <= v@.len(),
    ensures
        r == digits_end(v@, i as int),
        i <= r <= v@.len(),
{
    let mut j = i;
    while j < v.len() && v[j] as u32 >= 48 && v[j] as u32 <= 57
        invariant
            i <= j <= v@.len(),
            digits_end(v@, i as int) == digits_end(v@, j as int),
        decreases v@.len() - j,
    {
        j = j + 1;
    }
    j
}

/// Tests whether two string slices hold the same characters.
pub fn str_eq(a: &str, b: &str) -> (r: bool)
    ensures
        r == (a@ == b@),
{
    let n = a.unicode_len();
    let m = b.unicode_len();
    if n != m {
        return false;
    }
    let mut i: usize = 0;
    while i < n
        invariant
            n == a@.len(),
            n == b@.len(),
            i <= n,
            a@.take(i as int) == b@.take(i as int),
        decreases n - i,
    {
        if a.get_char(i) != b.get_char(i) {
            proof {
                assert(a@[i as int] != b@[i as int]);
            }
            return false;
        }
        proof {
            assert(a@.take(i + 1) =~= a@.take(i as int).push(a@[i as int]));
            assert(b@.take(i + 1) =~= b@.take(i as int).push(b@[i as int]));
        }
        i = i + 1;
    }
    proof {
        assert(a@.take(n as int) =~= a@);
        assert(b@.take(n as int) =~= b@);
    }
    true
}

} // verus!
