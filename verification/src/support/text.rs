//! Character-level helpers on strings, with the specifications they meet.

use vstd::prelude::*;
use vstd::string::*;

verus! {

/// The decimal digit character for `d` (`'0'` for 0, ..., `'9'` for 9).
pub open spec fn digit_char(d: nat) -> char {
    (d + 48) as char
}

/// The decimal representation of `n`, without leading zeros.
pub open spec fn decimal(n: nat) -> Seq<char>
    decreases n,
{
    if n < 10 {
        seq![digit_char(n)]
    } else {
        decimal(n / 10).push(digit_char(n % 10))
    }
}

fn digit_str(d: u64) -> (s: &'static str)
    requires
        d < 10,
    ensures
        s@ == seq![digit_char(d as nat)],
{
    let digits = "0123456789";
    proof {
        reveal_strlit("0123456789");
    }
    let s = digits.substring_char(d as usize, (d + 1) as usize);
    assert(s@ =~= seq![digit_char(d as nat)]);
    s
}

/// Writes `n` in decimal.
pub fn decimal_string(n: u64) -> (s: String)
    ensures
        s@ == decimal(n as nat),
    decreases n,
{
    if n < 10 {
        String::from_str(digit_str(n))
    } else {
        let mut s = decimal_string(n / 10);
        s.append(digit_str(n % 10));
        s
    }
}


/// The views of a sequence of strings.
pub open spec fn views(v: Seq<String>) -> Seq<Seq<char>> {
    v.map_values(|x: String| x@)
}

/// The pieces of `s` between occurrences of `sep`, as `str::split` yields them:
/// there is always one piece more than there are separators.
pub open spec fn split_on(s: Seq<char>, sep: char) -> Seq<Seq<char>>
    decreases s.len(),
{
    if s.len() == 0 {
        seq![Seq::<char>::empty()]
    } else {
        let p = split_on(s.drop_last(), sep);
        if s.last() == sep {
            p.push(Seq::<char>::empty())
        } else {
            p.update(p.len() - 1, p.last().push(s.last()))
        }
    }
}

/// `split_on` never yields an empty list of pieces.
pub proof fn lemma_split_on_nonempty(s: Seq<char>, sep: char)
    ensures
        split_on(s, sep).len() >= 1,
    decreases s.len(),
{
    if s.len() > 0 {
        lemma_split_on_nonempty(s.drop_last(), sep);
    }
}

/// A string without the separator is a single piece.
pub proof fn lemma_split_without_separator(s: Seq<char>, sep: char)
    requires
        !s.contains(sep),
    ensures
        split_on(s, sep) == seq![s],
    decreases s.len(),
{
    if s.len() > 0 {
        assert(!s.drop_last().contains(sep)) by {
            if s.drop_last().contains(sep) {
                let k = choose|k: int| 0 <= k < s.drop_last().len() && s.drop_last()[k] == sep;
                assert(s[k] == sep);
            }
        }
        lemma_split_without_separator(s.drop_last(), sep);
        assert(s.last() != sep) by {
            assert(s[s.len() - 1] == s.last());
        }
        assert(s.drop_last().push(s.last()) =~= s);
        let p = split_on(s.drop_last(), sep);
        assert(p.len() == 1);
        assert(p.last() == s.drop_last());
        assert(split_on(s, sep) =~= seq![s]);
    } else {
        assert(s =~= Seq::<char>::empty());
        assert(split_on(s, sep) =~= seq![s]);
    }
}

/// Where `s` splits into a single piece, that piece is `s`.
pub proof fn lemma_split_single_piece(s: Seq<char>, sep: char)
    requires
        split_on(s, sep).len() == 1,
    ensures
        split_on(s, sep)[0] == s,
    decreases s.len(),
{
    if s.len() > 0 {
        lemma_split_on_nonempty(s.drop_last(), sep);
        let p = split_on(s.drop_last(), sep);
        if s.last() == sep {
            assert(split_on(s, sep).len() == p.len() + 1);
        } else {
            assert(p.len() == 1);
            lemma_split_single_piece(s.drop_last(), sep);
            assert(s.drop_last().push(s.last()) =~= s);
        }
    }
}

/// Splits `s` at every occurrence of `sep`.
pub fn split_str(s: &str, sep: char) -> (pieces: Vec<String>)
    ensures
        views(pieces@) == split_on(s@, sep),
{
    let n = s.unicode_len();
    let mut pieces: Vec<String> = Vec::new();
    let mut start: usize = 0;
    let mut i: usize = 0;
    assert(s@.take(0) =~= Seq::<char>::empty());
    assert(views(pieces@) + seq![s@.subrange(0, 0)] =~= split_on(s@.take(0), sep));
    while i < n
        invariant
            n == s@.len(),
            start <= i <= n,
            views(pieces@) + seq![s@.subrange(start as int, i as int)] == split_on(s@.take(i as int), sep),
        decreases n - i,
    {
        let c = s.get_char(i);
        let ghost old_pieces = pieces@;
        assert(s@.take(i + 1).drop_last() =~= s@.take(i as int));
        assert(s@.take(i + 1).last() == c);
        if c == sep {
            let piece = String::from_str(s.substring_char(start, i));
            pieces.push(piece);
            assert(views(pieces@) =~= views(old_pieces).push(s@.subrange(start as int, i as int)));
            assert(split_on(s@.take(i + 1), sep) == split_on(s@.take(i as int), sep).push(Seq::<char>::empty()));
            assert(split_on(s@.take(i as int), sep) =~= views(pieces@));
            start = i + 1;
            assert(s@.subrange(start as int, (i + 1) as int) =~= Seq::<char>::empty());
            assert(views(pieces@) + seq![s@.subrange(start as int, (i + 1) as int)] =~= split_on(s@.take(i + 1), sep));
        } else {
            assert(s@.subrange(start as int, (i + 1) as int) =~= s@.subrange(start as int, i as int).push(c));
            assert(views(pieces@) + seq![s@.subrange(start as int, (i + 1) as int)] =~= split_on(s@.take(i + 1), sep));
        }
        i = i + 1;
    }
    let ghost before = pieces@;
    let last = String::from_str(s.substring_char(start, n));
    pieces.push(last);
    assert(s@.take(n as int) =~= s@);
    assert(views(pieces@) =~= views(before) + seq![s@.subrange(start as int, n as int)]);
    pieces
}

/// The ASCII lower-case form of a character.
pub open spec fn ascii_lower(c: char) -> char {
    if 'A' <= c && c <= 'Z' {
        ((c as u32) + 32) as char
    } else {
        c
    }
}

/// The ASCII lower-case form of a string, as `str::to_ascii_lowercase` gives it.
pub open spec fn ascii_lowercase(s: Seq<char>) -> Seq<char> {
    s.map_values(|c: char| ascii_lower(c))
}

/// Whether `s`, in ASCII lower case, equals `lower`.
pub fn ascii_lowercase_equals(s: &str, lower: &str) -> (r: bool)
    ensures
        r == (ascii_lowercase(s@) == lower@),
{
    let n = s.unicode_len();
    let m = lower.unicode_len();
    if n != m {
        assert(ascii_lowercase(s@).len() != lower@.len());
        return false;
    }
    let mut i: usize = 0;
    while i < n
        invariant
            n == s@.len(),
            m == lower@.len(),
            n == m,
            i <= n,
            forall|j: int| 0 <= j < i ==> ascii_lower(#[trigger] s@[j]) == lower@[j],
        decreases n - i,
    {
        let c = s.get_char(i);
        let l = lower.get_char(i);
        let lc = if 'A' <= c && c <= 'Z' {
            (c as u32) + 32
        } else {
            c as u32
        };
        if lc != l as u32 {
            assert(ascii_lowercase(s@)[i as int] != lower@[i as int]);
            return false;
        }
        i = i + 1;
    }
    assert(ascii_lowercase(s@) =~= lower@);
    true
}

/// `s` with every `"--"` taken out, scanning from the left, as `str::replace("--", "")` does.
pub open spec fn without_double_dashes(s: Seq<char>) -> Seq<char>
    decreases s.len(),
{
    if s.len() == 0 {
        s
    } else if s.len() >= 2 && s[0] == '-' && s[1] == '-' {
        without_double_dashes(s.skip(2))
    } else {
        seq![s[0]] + without_double_dashes(s.skip(1))
    }
}

/// A string without dashes has no `"--"` to take out.
pub proof fn lemma_without_dashes_unchanged(s: Seq<char>)
    requires
        !s.contains('-'),
    ensures
        without_double_dashes(s) == s,
    decreases s.len(),
{
    if s.len() > 0 {
        assert(s[0] != '-');
        assert(!s.skip(1).contains('-')) by {
            if s.skip(1).contains('-') {
                let k = choose|k: int| 0 <= k < s.skip(1).len() && s.skip(1)[k] == '-';
                assert(s[k + 1] == '-');
            }
        }
        lemma_without_dashes_unchanged(s.skip(1));
        assert(seq![s[0]] + s.skip(1) =~= s);
    }
}

/// Takes every `"--"` out of `s`.
pub fn remove_double_dashes(s: &str) -> (r: String)
    ensures
        r@ == without_double_dashes(s@),
{
    let n = s.unicode_len();
    let mut out = String::new();
    let mut i: usize = 0;
    assert(s@.skip(0) =~= s@);
    while i < n
        invariant
            n == s@.len(),
            i <= n,
            out@ + without_double_dashes(s@.skip(i as int)) == without_double_dashes(s@),
        decreases n - i,
    {
        if i + 1 < n && s.get_char(i) == '-' && s.get_char(i + 1) == '-' {
            assert(s@.skip(i as int).skip(2) =~= s@.skip(i + 2));
            i = i + 2;
        } else {
            assert(s@.skip(i as int).skip(1) =~= s@.skip(i + 1));
            let ghost before = out@;
            out.append(s.substring_char(i, i + 1));
            assert(out@ =~= before + seq![s@[i as int]]);
            assert(out@ + without_double_dashes(s@.skip(i + 1)) =~= before + without_double_dashes(s@.skip(i as int)));
            i = i + 1;
        }
    }
    assert(s@.skip(n as int) =~= Seq::<char>::empty());
    assert(out@ =~= without_double_dashes(s@));
    out
}


/// Whether two strings hold the same characters.
pub fn str_eq(a: &str, b: &str) -> (r: bool)
    ensures
        r == (a@ == b@),
{
    let n = a.unicode_len();
    if n != b.unicode_len() {
        return false;
    }
    let mut i: usize = 0;
    while i < n
        invariant
            n == a@.len(),
            n == b@.len(),
            i <= n,
            forall|j: int| 0 <= j < i ==> a@[j] == b@[j],
        decreases n - i,
    {
        if a.get_char(i) != b.get_char(i) {
            return false;
        }
        i = i + 1;
    }
    assert(a@ =~= b@);
    true
}

} // verus!
