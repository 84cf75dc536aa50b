//! The syntax of a command-line option: one or two dashes, a name of an ASCII
//! letter followed by at least one ASCII letter or digit, and optionally `=` with
//! a value of at least one character, none of them a line feed.
//! (As a regular expression: `^--?[a-zA-Z][a-zA-Z0-9]+(?:=.{1,}+)?$`.)

use vstd::prelude::*;
use vstd::string::*;

verus! {

pub open spec fn is_ascii_letter(c: char) -> bool {
    ('a' <= c && c <= 'z') || ('A' <= c && c <= 'Z')
}

pub open spec fn is_ascii_alnum(c: char) -> bool {
    is_ascii_letter(c) || ('0' <= c && c <= '9')
}

/// The number of leading dashes that the option syntax reads: two where the
/// second character is a dash, else one.
pub open spec fn dash_len(s: Seq<char>) -> int {
    if s.len() >= 2 && s[1] == '-' {
        2
    } else {
        1
    }
}

/// The end of the run of ASCII letters and digits that starts at `i`.
pub open spec fn name_end(s: Seq<char>, i: int) -> int
    decreases s.len() - i,
{
    if 0 <= i < s.len() && is_ascii_alnum(s[i]) {
        name_end(s, i + 1)
    } else {
        i
    }
}

/// Whether `s` is written as an option.
pub open spec fn option_syntax(s: Seq<char>) -> bool {
    let d = dash_len(s);
    let e = name_end(s, d + 1);
    &&& s.len() >= 1 && s[0] == '-'
    &&& d < s.len() && is_ascii_letter(s[d])
    &&& e >= d + 2
    &&& (e == s.len() || (s[e] == '=' && e + 1 < s.len() && forall|j: int|
        e < j < s.len() ==> s[j] != '\n'))
}

fn is_letter(c: char) -> (r: bool)
    ensures
        r == is_ascii_letter(c),
{
    ('a' <= c && c <= 'z') || ('A' <= c && c <= 'Z')
}

fn is_alnum(c: char) -> (r: bool)
    ensures
        r == is_ascii_alnum(c),
{
    is_letter(c) || ('0' <= c && c <= '9')
}

/// Whether `s` is written as an option.
pub fn is_option_syntax(s: &str) -> (r: bool)
    ensures
        r == option_syntax(s@),
{
    let n = s.unicode_len();
    if n == 0 || s.get_char(0) != '-' {
        return false;
    }
    let d: usize = if n >= 2 && s.get_char(1) == '-' {
        2
    } else {
        1
    };
    assert(d == dash_len(s@));
    if d >= n || !is_letter(s.get_char(d)) {
        return false;
    }
    let mut e: usize = d + 1;
    while e < n && is_alnum(s.get_char(e))
        invariant
            n == s@.len(),
            d + 1 <= e <= n,
            name_end(s@, d + 1) == name_end(s@, e as int),
        decreases n - e,
    {
        e = e + 1;
    }
    assert(name_end(s@, e as int) == e);
    if e < d + 2 {
        return false;
    }
    if e == n {
        return true;
    }
    if s.get_char(e) != '=' || e + 1 >= n {
        return false;
    }
    let mut j: usize = e + 1;
    while j < n
        invariant
            n == s@.len(),
            e + 1 <= j <= n,
            d == dash_len(s@),
            name_end(s@, d + 1) == e,
            e < n,
            forall|k: int| e < k < j ==> s@[k] != '\n',
        decreases n - j,
    {
        if s.get_char(j) == '\n' {
            assert(s@[j as int] == '\n');
            assert(!option_syntax(s@));
            return false;
        }
        j = j + 1;
    }
    true
}

} // verus!
