//! Where a logged error came from: from the source file of the caller, the
//! path of the file inside the workspace's `crates/` directory and the module
//! path used as the log target.

use vstd::prelude::*;
use crate::text_util::{chars_of, extend_chars, find_first, is_first_match, matches_at, matches_at_exec, starts_with, string_from_chars, sub_chars};

verus! {

/// `s` cut at the first occurrence of `pat`: what comes before it and what
/// comes after it.
pub open spec fn split_once(s: Seq<char>, pat: Seq<char>) -> Option<(Seq<char>, Seq<char>)> {
    if exists|i: int| is_first_match(s, pat, i) {
        let i = choose|i: int| is_first_match(s, pat, i);
        Some((s.subrange(0, i), s.subrange(i + pat.len(), s.len() as int)))
    } else {
        None
    }
}

/// `s` ends with `.rs`.
pub open spec fn ends_with_rs(s: Seq<char>) -> bool {
    s.len() >= 3 && s.subrange(s.len() - 3, s.len() as int) == seq!['.', 'r', 's']
}

/// `s` with every trailing `.rs` removed.
pub open spec fn trim_rs_suffixes(s: Seq<char>) -> Seq<char>
    decreases s.len(),
{
    if ends_with_rs(s) {
        trim_rs_suffixes(s.subrange(0, s.len() - 3))
    } else {
        s
    }
}

/// What one character becomes in a module path: `/` becomes `::`.
pub open spec fn path_piece(c: char) -> Seq<char> {
    if c == '/' {
        seq![':', ':']
    } else {
        seq![c]
    }
}

/// `s` with every `/` replaced by `::`.
pub open spec fn replace_slashes(s: Seq<char>) -> Seq<char>
    decreases s.len(),
{
    if s.len() == 0 {
        Seq::empty()
    } else {
        replace_slashes(s.drop_last()) + path_piece(s.last())
    }
}

/// The module path of a source file `module` (relative to the `src/`
/// directory of crate `krate`): the file path without `.rs` and with `::`
/// between its parts, prefixed by the crate name unless it already starts
/// with it.
pub open spec fn module_path_of(krate: Seq<char>, module: Seq<char>) -> Seq<char> {
    let m = replace_slashes(trim_rs_suffixes(module));
    if starts_with(module, krate) {
        m
    } else {
        krate + seq![':', ':'] + m
    }
}

/// The location of a logged error.
pub struct LogLocation {
    /// The file's path from the `crates/` directory on.
    pub path: Option<String>,
    /// The module path, used as the log target.
    pub target: Option<String>,
}

/// The view of an optional string.
pub open spec fn opt_chars(o: Option<String>) -> Option<Seq<char>> {
    match o {
        Some(s) => Some(s@),
        None => None,
    }
}

/// The path owed for a caller's file: `crates/` followed by what follows the
/// first `crates/` in it.
pub open spec fn spec_log_path(file: Seq<char>) -> Option<Seq<char>> {
    match split_once(file, seq!['c', 'r', 'a', 't', 'e', 's', '/']) {
        Some((_, rest)) => Some(seq!['c', 'r', 'a', 't', 'e', 's', '/'] + rest),
        None => None,
    }
}

/// The log target owed for a caller's file: after the first `crates/`, the
/// crate name is what precedes the first `/src/` and the module is what
/// follows it.
pub open spec fn spec_log_target(file: Seq<char>) -> Option<Seq<char>> {
    match split_once(file, seq!['c', 'r', 'a', 't', 'e', 's', '/']) {
        Some((_, rest)) => match split_once(rest, seq!['/', 's', 'r', 'c', '/']) {
            Some((krate, module)) => Some(module_path_of(krate, module)),
            None => None,
        },
        None => None,
    }
}

proof fn lemma_first_match_unique(s: Seq<char>, pat: Seq<char>, i: int, j: int)
    requires
        is_first_match(s, pat, i),
        is_first_match(s, pat, j),
    ensures
        i == j,
{
    if i < j {
        assert(!matches_at(s, pat, i));
    } else if j < i {
        assert(!matches_at(s, pat, j));
    }
}

/// Splits `s` at the first occurrence of `pat`.
fn split_once_exec(s: &Vec<char>, pat: &Vec<char>) -> (r: Option<(Vec<char>, Vec<char>)>)
    ensures
        match r {
            Some((a, b)) => split_once(s@, pat@) == Some((a@, b@)),
            None => split_once(s@, pat@) is None,
        },
{
    match find_first(s, pat) {
        Some(i) => {
            proof {
                let c = choose|k: int| is_first_match(s@, pat@, k);
                lemma_first_match_unique(s@, pat@, i as int, c);
            }
            let n = s.len();
            assert(i + pat@.len() <= n);
            let before = sub_chars(s, 0, i);
            let after = sub_chars(s, i + pat.len(), n);
            Some((before, after))
        },
        None => None,
    }
}

proof fn lemma_trim_step(s: Seq<char>, end: int)
    requires
        3 <= end <= s.len(),
        s[end - 3] == '.',
        s[end - 2] == 'r',
        s[end - 1] == 's',
    ensures
        trim_rs_suffixes(s.subrange(0, end)) == trim_rs_suffixes(s.subrange(0, end - 3)),
{
    let cur = s.subrange(0, end);
    assert(cur.subrange(cur.len() - 3, cur.len() as int) =~= seq!['.', 'r', 's']);
    assert(cur.subrange(0, cur.len() - 3) =~= s.subrange(0, end - 3));
}

proof fn lemma_trim_stop(s: Seq<char>, end: int)
    requires
        0 <= end <= s.len(),
        !(end >= 3 && s[end - 3] == '.' && s[end - 2] == 'r' && s[end - 1] == 's'),
    ensures
        trim_rs_suffixes(s.subrange(0, end)) == s.subrange(0, end),
{
    let cur = s.subrange(0, end);
    if ends_with_rs(cur) {
        assert(cur.subrange(cur.len() - 3, cur.len() as int)[0] == s[end - 3]);
        assert(cur.subrange(cur.len() - 3, cur.len() as int)[1] == s[end - 2]);
        assert(cur.subrange(cur.len() - 3, cur.len() as int)[2] == s[end - 1]);
    }
}

/// `s` with every trailing `.rs` removed.
fn trim_rs_exec(s: &Vec<char>) -> (r: Vec<char>)
    ensures
        r@ == trim_rs_suffixes(s@),
{
    let mut end: usize = s.len();
    assert(s@.subrange(0, end as int) =~= s@);
    while end >= 3 && s[end - 3] == '.' && s[end - 2] == 'r' && s[end - 1] == 's'
        invariant
            end <= s@.len(),
            trim_rs_suffixes(s@) == trim_rs_suffixes(s@.subrange(0, end as int)),
        decreases end,
    {
        proof {
            lemma_trim_step(s@, end as int);
        }
        end = end - 3;
    }
    proof {
        lemma_trim_stop(s@, end as int);
    }
    sub_chars(s, 0, end)
}

/// `s` with every `/` replaced by `::`.
fn replace_slashes_exec(s: &Vec<char>) -> (r: Vec<char>)
    ensures
        r@ == replace_slashes(s@),
{
    let mut out: Vec<char> = Vec::new();
    let n = s.len();
    let mut i: usize = 0;
    proof {
        assert(s@.subrange(0, 0) =~= Seq::<char>::empty());
    }
    while i < n
        invariant
            n == s@.len(),
            0 <= i <= n,
            out@ == replace_slashes(s@.subrange(0, i as int)),
        decreases n - i,
    {
        let c = s[i];
        if c == '/' {
            out.push(':');
            out.push(':');
        } else {
            out.push(c);
        }
        proof {
            let next = s@.subrange(0, i + 1);
            assert(next.drop_last() =~= s@.subrange(0, i as int));
            assert(next.last() == c);
            assert(out@ =~= replace_slashes(s@.subrange(0, i as int)) + path_piece(c));
        }
        i = i + 1;
    }
    assert(s@.subrange(0, n as int) =~= s@);
    out
}

/// Whether `s` begins with `prefix`.
fn starts_with_exec(s: &Vec<char>, prefix: &Vec<char>) -> (r: bool)
    ensures
        r == starts_with(s@, prefix@),
{
    matches_at_exec(s, prefix, 0)
}

/// The location to log for an error raised from source file `file`: its
/// path from the `crates/` directory on, and its module path (the crate name
/// and the file's path below `src/`, joined by `::`).
pub fn log_location(file: &str) -> (loc: LogLocation)
    ensures
        opt_chars(loc.path) == spec_log_path(file@),
        opt_chars(loc.target) == spec_log_target(file@),
{
    let chars = chars_of(file);
    let crates_dir = vec!['c', 'r', 'a', 't', 'e', 's', '/'];
    let src_dir = vec!['/', 's', 'r', 'c', '/'];
    assert(crates_dir@ =~= seq!['c', 'r', 'a', 't', 'e', 's', '/']);
    assert(src_dir@ =~= seq!['/', 's', 'r', 'c', '/']);
    match split_once_exec(&chars, &crates_dir) {
        None => LogLocation { path: None, target: None },
        Some((_, rest)) => {
            let target = match split_once_exec(&rest, &src_dir) {
                None => None,
                Some((krate, module)) => {
                    let trimmed = trim_rs_exec(&module);
                    let replaced = replace_slashes_exec(&trimmed);
                    if starts_with_exec(&module, &krate) {
                        Some(string_from_chars(replaced.as_slice()))
                    } else {
                        let mut full = krate;
                        full.push(':');
                        full.push(':');
                        let ghost prefix = full@;
                        extend_chars(&mut full, &replaced);
                        assert(prefix =~= krate@ + seq![':', ':']);
                        Some(string_from_chars(full.as_slice()))
                    }
                },
            };
            let mut path = crates_dir.clone();
            extend_chars(&mut path, &rest);
            LogLocation { path: Some(string_from_chars(path.as_slice())), target }
        },
    }
}

} // verus!
