//! The application log: which of the log files under `storage/logs` to write,
//! when to start a new one, and which old one to remove.

use vstd::prelude::*;
use vstd::string::*;
use crate::support::pattern::{regex_compiles, regex_matches, Pattern};
use crate::support::text::views;

verus! {

#[verifier::external_type_specification]
#[verifier::external_body]
pub struct ExPathBuf(std::path::PathBuf);

/// `PathBuf::clone`, which the derived `Clone` of `Logger` calls. Nothing is
/// claimed of the copy it returns.
pub assume_specification[ <std::path::PathBuf as Clone>::clone ](path: &std::path::PathBuf) -> std::path::PathBuf;

/// The names of log files: `app.` and a ten-digit timestamp, then any character and `log`.
pub const LOG_FILE_PATTERN: &'static str = r"\Aapp\.\d{10}.log\z";

/// A log file reaches its limit at this many mebibytes.
pub const LOG_FILE_LIMIT_MIB: u64 = 25;

/// Old log files are removed once there are this many.
pub const LOG_FILE_COUNT_LIMIT: usize = 10;

/// The application log, kept under a root directory.
#[derive(Clone)]
pub struct Logger {
    root: std::path::PathBuf,
}

impl Logger {
    pub closed spec fn root_spec(&self) -> std::path::PathBuf {
        self.root
    }

    pub fn new(root: std::path::PathBuf) -> (l: Logger)
        ensures
            l.root_spec() == root,
    {
        Logger { root }
    }

    pub fn root(&self) -> (r: &std::path::PathBuf)
        ensures
            *r == self.root_spec(),
    {
        &self.root
    }
}

/// The compiled pattern of log file names; none where the `regex` crate refuses it.
pub fn log_file_pattern() -> (p: Option<Pattern>)
    ensures
        p is Some <==> regex_compiles(LOG_FILE_PATTERN@),
        p matches Some(q) ==> q@ == LOG_FILE_PATTERN@,
{
    Pattern::compile(LOG_FILE_PATTERN)
}

/// Whether `a` comes before `b` in the order of their characters' code points
/// (the order of their UTF-8 bytes, in which `str` compares).
pub open spec fn seq_lt(a: Seq<char>, b: Seq<char>) -> bool
    decreases a.len(),
{
    if a.len() == 0 {
        b.len() > 0
    } else if b.len() == 0 {
        false
    } else if a[0] != b[0] {
        a[0] < b[0]
    } else {
        seq_lt(a.skip(1), b.skip(1))
    }
}

/// Whether `a` comes before `b`.
pub fn str_lt(a: &str, b: &str) -> (r: bool)
    ensures
        r == seq_lt(a@, b@),
{
    let n = a.unicode_len();
    let m = b.unicode_len();
    let mut i: usize = 0;
    assert(a@.skip(0) =~= a@);
    assert(b@.skip(0) =~= b@);
    while i < n && i < m && a.get_char(i) == b.get_char(i)
        invariant
            n == a@.len(),
            m == b@.len(),
            i <= n,
            i <= m,
            seq_lt(a@, b@) == seq_lt(a@.skip(i as int), b@.skip(i as int)),
        decreases n - i,
    {
        assert(a@.skip(i as int).skip(1) =~= a@.skip(i + 1));
        assert(b@.skip(i as int).skip(1) =~= b@.skip(i + 1));
        i = i + 1;
    }
    if i == n {
        i < m
    } else if i == m {
        false
    } else {
        a.get_char(i) < b.get_char(i)
    }
}

/// What to do with the log files: the file to append to, none to start a new
/// one; and the file to remove, if any.
pub struct LogFilePlan {
    pub append_to: Option<String>,
    pub remove: Option<String>,
}

/// The log file names among `names`: those the pattern matches, in order.
pub open spec fn log_files(source: Seq<char>, names: Seq<Seq<char>>) -> Seq<Seq<char>> {
    names.filter(|n: Seq<char>| regex_matches(source, n))
}

/// `s` is among `files` and none of them comes after it.
pub open spec fn is_last(files: Seq<Seq<char>>, s: Seq<char>) -> bool {
    files.contains(s) && forall|i: int| 0 <= i < files.len() ==> !seq_lt(s, #[trigger] files[i])
}

/// `s` is among `files` and none of them comes before it.
pub open spec fn is_first(files: Seq<Seq<char>>, s: Seq<char>) -> bool {
    files.contains(s) && forall|i: int| 0 <= i < files.len() ==> !seq_lt(#[trigger] files[i], s)
}

/// `seq_lt` is the lexicographic order, read from the first character: `a` comes
/// before `b` exactly where `a` is a proper prefix of `b`, or where at the first
/// position at which they differ the character of `a` is the smaller.
pub proof fn lemma_seq_lt_lexicographic(a: Seq<char>, b: Seq<char>)
    ensures
        seq_lt(a, b) <==> (a.len() < b.len() && b.take(a.len() as int) == a) || exists|k: int|
            0 <= k < a.len() && k < b.len() && a.take(k) == b.take(k) && (#[trigger] a[k]) < b[k],
    decreases a.len(),
{
    if a.len() == 0 {
        assert(b.take(0) =~= a);
    } else if b.len() == 0 {
    } else if a[0] != b[0] {
        if a[0] < b[0] {
            assert(a.take(0) =~= b.take(0));
        }
        if a.len() < b.len() && b.take(a.len() as int) == a {
            assert(b.take(a.len() as int)[0] == b[0]);
        }
        if exists|k: int| 0 <= k < a.len() && k < b.len() && a.take(k) == b.take(k) && (#[trigger] a[k]) < b[k] {
            let k = choose|k: int| 0 <= k < a.len() && k < b.len() && a.take(k) == b.take(k) && (#[trigger] a[k]) < b[k];
            if k > 0 {
                assert(a.take(k)[0] == b.take(k)[0]);
            }
        }
    } else {
        let a1 = a.skip(1);
        let b1 = b.skip(1);
        lemma_seq_lt_lexicographic(a1, b1);
        if a.len() < b.len() && b.take(a.len() as int) == a {
            assert(b1.take(a1.len() as int) =~= a1) by {
                assert forall|j: int| 0 <= j < a1.len() implies #[trigger] b1.take(a1.len() as int)[j] == a1[j] by {
                    assert(b.take(a.len() as int)[j + 1] == a[j + 1]);
                }
            }
        }
        if a1.len() < b1.len() && b1.take(a1.len() as int) == a1 {
            assert(b.take(a.len() as int) =~= a) by {
                assert forall|j: int| 0 <= j < a.len() implies #[trigger] b.take(a.len() as int)[j] == a[j] by {
                    if j > 0 {
                        assert(b1.take(a1.len() as int)[j - 1] == a1[j - 1]);
                    }
                }
            }
        }
        if exists|k: int| 0 <= k < a.len() && k < b.len() && a.take(k) == b.take(k) && (#[trigger] a[k]) < b[k] {
            let k = choose|k: int| 0 <= k < a.len() && k < b.len() && a.take(k) == b.take(k) && (#[trigger] a[k]) < b[k];
            assert(k != 0);
            assert(a1.take(k - 1) =~= b1.take(k - 1)) by {
                assert forall|j: int| 0 <= j < k - 1 implies #[trigger] a1.take(k - 1)[j] == b1.take(k - 1)[j] by {
                    assert(a.take(k)[j + 1] == b.take(k)[j + 1]);
                }
            }
            assert(a1[k - 1] < b1[k - 1]);
        }
        if exists|k: int| 0 <= k < a1.len() && k < b1.len() && a1.take(k) == b1.take(k) && (#[trigger] a1[k]) < b1[k] {
            let k = choose|k: int| 0 <= k < a1.len() && k < b1.len() && a1.take(k) == b1.take(k) && (#[trigger] a1[k]) < b1[k];
            assert(a.take(k + 1) =~= b.take(k + 1)) by {
                assert forall|j: int| 0 <= j < k + 1 implies #[trigger] a.take(k + 1)[j] == b.take(k + 1)[j] by {
                    if j > 0 {
                        assert(a1.take(k)[j - 1] == b1.take(k)[j - 1]);
                    }
                }
            }
            assert(a[k + 1] < b[k + 1]);
        }
    }
}

/// The order of `seq_lt` is transitive.
pub proof fn lemma_seq_lt_transitive(a: Seq<char>, b: Seq<char>, c: Seq<char>)
    requires
        seq_lt(a, b),
        seq_lt(b, c),
    ensures
        seq_lt(a, c),
    decreases a.len(),
{
    if a.len() > 0 && b.len() > 0 && c.len() > 0 && a[0] == b[0] && b[0] == c[0] {
        lemma_seq_lt_transitive(a.skip(1), b.skip(1), c.skip(1));
    }
}

/// No sequence comes before itself.
pub proof fn lemma_seq_lt_irreflexive(a: Seq<char>)
    ensures
        !seq_lt(a, a),
    decreases a.len(),
{
    if a.len() > 0 {
        lemma_seq_lt_irreflexive(a.skip(1));
    }
}

/// Of two different sequences, one comes before the other.
pub proof fn lemma_seq_lt_total(a: Seq<char>, b: Seq<char>)
    requires
        a != b,
    ensures
        seq_lt(a, b) || seq_lt(b, a),
    decreases a.len(),
{
    if a.len() > 0 && b.len() > 0 {
        if a[0] == b[0] {
            assert(a.skip(1) != b.skip(1)) by {
                if a.skip(1) == b.skip(1) {
                    assert(a =~= seq![a[0]] + a.skip(1));
                    assert(b =~= seq![b[0]] + b.skip(1));
                }
            }
            lemma_seq_lt_total(a.skip(1), b.skip(1));
        }
    } else if a.len() == 0 && b.len() == 0 {
        assert(a =~= b);
    }
}

/// Among two or more differently named log files, the file that is removed is
/// never the one that is appended to.
pub proof fn lemma_removed_file_is_not_appended_to(files: Seq<Seq<char>>, last: Seq<char>, first: Seq<char>)
    requires
        files.no_duplicates(),
        files.len() >= 2,
        is_last(files, last),
        is_first(files, first),
    ensures
        last != first,
{
    if last == first {
        let k = choose|k: int| 0 <= k < files.len() && files[k] == last;
        let other = if k == 0 { 1int } else { 0int };
        assert(files[other] != files[k]);
        lemma_seq_lt_total(files[other], last);
        assert(!seq_lt(last, files[other]));
        assert(!seq_lt(files[other], first));
    }
}

/// Decides what to do with the log files among `names`: append to the last of
/// them in order, or start a new one where there is none; and where there are
/// `LOG_FILE_COUNT_LIMIT` or more, remove the first of them.
pub fn plan_log_files(pattern: &Pattern, names: &Vec<String>) -> (plan: LogFilePlan)
    ensures
        ({
            let files = log_files(pattern@, views(names@));
            &&& plan.append_to is None <==> files.len() == 0
            &&& plan.append_to matches Some(s) ==> is_last(files, s@)
            &&& plan.remove is Some <==> files.len() >= LOG_FILE_COUNT_LIMIT
            &&& plan.remove matches Some(s) ==> is_first(files, s@)
        }),
{
    let ghost src = pattern@;
    let ghost all = views(names@);
    let mut count: usize = 0;
    let mut latest: Option<&String> = None;
    let mut earliest: Option<&String> = None;
    let mut i: usize = 0;
    proof {
        reveal_with_fuel(Seq::filter, 1);
        assert(all.take(0) =~= Seq::<Seq<char>>::empty());
    }
    while i < names.len()
        invariant
            i <= names@.len(),
            all == views(names@),
            src == pattern@,
            count == log_files(src, all.take(i as int)).len(),
            latest is None <==> count == 0,
            earliest is None <==> count == 0,
            latest matches Some(s) ==> is_last(log_files(src, all.take(i as int)), s@),
            earliest matches Some(s) ==> is_first(log_files(src, all.take(i as int)), s@),
        decreases names@.len() - i,
    {
        let name = &names[i];
        let ghost before = log_files(src, all.take(i as int));
        proof {
            reveal_with_fuel(Seq::filter, 1);
            assert(all.take(i + 1).drop_last() =~= all.take(i as int));
            assert(all.take(i + 1).last() == name@);
        }
        if pattern.is_match(name.as_str()) {
            let ghost after = before.push(name@);
            assert(log_files(src, all.take(i + 1)) == after);
            assert(after.contains(name@)) by {
                assert(after[after.len() - 1] == name@);
            }
            assert(count < names@.len()) by {
                before.filter_lemma(|n: Seq<char>| true);
                all.take(i as int).lemma_filter_len(|n: Seq<char>| regex_matches(src, n));
            }
            count = count + 1;
            match latest {
                None => {
                    proof {
                        lemma_seq_lt_irreflexive(name@);
                    }
                    assert(after.len() == 1);
                    latest = Some(name);
                },
                Some(l) => {
                    if str_lt(l.as_str(), name.as_str()) {
                        assert forall|j: int| 0 <= j < after.len() implies !seq_lt(name@, #[trigger] after[j]) by {
                            if j < before.len() {
                                assert(after[j] == before[j]);
                                if seq_lt(name@, after[j]) {
                                    lemma_seq_lt_transitive(l@, name@, after[j]);
                                }
                            } else {
                                lemma_seq_lt_irreflexive(name@);
                            }
                        }
                        latest = Some(name);
                    } else {
                        assert(before.contains(l@));
                        assert(after.contains(l@)) by {
                            let k = choose|k: int| 0 <= k < before.len() && before[k] == l@;
                            assert(after[k] == l@);
                        }
                        assert forall|j: int| 0 <= j < after.len() implies !seq_lt(l@, #[trigger] after[j]) by {
                            if j < before.len() {
                                assert(after[j] == before[j]);
                            }
                        }
                    }
                },
            }
            match earliest {
                None => {
                    proof {
                        lemma_seq_lt_irreflexive(name@);
                    }
                    assert(after.len() == 1);
                    earliest = Some(name);
                },
                Some(e) => {
                    if str_lt(name.as_str(), e.as_str()) {
                        assert forall|j: int| 0 <= j < after.len() implies !seq_lt(#[trigger] after[j], name@) by {
                            if j < before.len() {
                                assert(after[j] == before[j]);
                                if seq_lt(after[j], name@) {
                                    lemma_seq_lt_transitive(after[j], name@, e@);
                                }
                            } else {
                                lemma_seq_lt_irreflexive(name@);
                            }
                        }
                        earliest = Some(name);
                    } else {
                        assert(after.contains(e@)) by {
                            let k = choose|k: int| 0 <= k < before.len() && before[k] == e@;
                            assert(after[k] == e@);
                        }
                        assert forall|j: int| 0 <= j < after.len() implies !seq_lt(#[trigger] after[j], e@) by {
                            if j < before.len() {
                                assert(after[j] == before[j]);
                            }
                        }
                    }
                },
            }
        } else {
            assert(log_files(src, all.take(i + 1)) == before);
        }
        i = i + 1;
    }
    assert(all.take(i as int) =~= all);
    let append_to = match latest {
        Some(l) => Some(l.clone()),
        None => None,
    };
    let remove = if count >= LOG_FILE_COUNT_LIMIT {
        match earliest {
            Some(e) => Some(e.clone()),
            None => None,
        }
    } else {
        None
    };
    LogFilePlan { append_to, remove }
}

/// Whether a log file of `len` bytes has reached its limit.
pub fn exceeds_size_limit(len: u64) -> (b: bool)
    ensures
        b == (len / 1024 / 1024 >= LOG_FILE_LIMIT_MIB),
{
    len / 1024 / 1024 >= LOG_FILE_LIMIT_MIB
}

/// A line of the log: `[<time>] <location>: <content>` and a line feed.
pub open spec fn log_line_text(time: Seq<char>, location: Seq<char>, content: Seq<char>) -> Seq<char> {
    "["@ + time + "] "@ + location + ": "@ + content + "\n"@
}

/// Writes a line of the log.
pub fn log_line(time: &str, location: &str, content: &str) -> (line: String)
    ensures
        line@ == log_line_text(time@, location@, content@),
{
    let mut line = String::from_str("[");
    line.append(time);
    line.append("] ");
    line.append(location);
    line.append(": ");
    line.append(content);
    line.append("\n");
    line
}

} // verus!
