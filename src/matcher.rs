//! The interface to the outside tools: the matcher's command line and exit
//! status, the repository list, and the names of archives and indexes.
use vstd::prelude::*;
use crate::text::{
    char_views, chars_end_with, chars_of, ends_with, string_of, string_range, terminated_lines,
    terminated_lines_of, views,
};

verus! {

/// The matcher's arguments for `pattern` on index `db`.
pub open spec fn matcher_argv(db: Seq<char>, pattern: Seq<char>, regex: bool, basename: bool) -> Seq<
    Seq<char>,
> {
    (if regex {
        seq!["--regex"@]
    } else {
        Seq::empty()
    }) + (if basename {
        seq!["-b"@]
    } else {
        Seq::empty()
    }) + seq!["-d"@, db, "-N"@, "--"@, pattern]
}

/// The matcher's arguments: regular-expression mode, base-name mode, the
/// index, no escaping of output, and the pattern after the end of options.
pub fn matcher_args(db: &str, pattern: &str, regex: bool, basename: bool) -> (r: Vec<String>)
    ensures
        views(r@) == matcher_argv(db@, pattern@, regex, basename),
{
    let mut r: Vec<String> = Vec::new();
    if regex {
        r.push(String::from_str("--regex"));
    }
    if basename {
        r.push(String::from_str("-b"));
    }
    r.push(String::from_str("-d"));
    r.push(String::from_str(db));
    r.push(String::from_str("-N"));
    r.push(String::from_str("--"));
    r.push(String::from_str(pattern));
    assert(views(r@) =~= matcher_argv(db@, pattern@, regex, basename));
    r
}

/// The matcher failed: it exited other than with 0 (success) or 1 (no match),
/// or was ended by a signal (no exit code).
pub open spec fn matcher_failure(code: Option<i32>) -> bool {
    code != Some(0i32) && code != Some(1i32)
}

pub fn matcher_failed(code: Option<i32>) -> (r: bool)
    ensures
        r == matcher_failure(code),
{
    match code {
        Some(c) => c != 0 && c != 1,
        None => true,
    }
}

/// A line read from the matcher, without its newline.
pub open spec fn without_newline(line: Seq<char>) -> Seq<char> {
    if line.len() > 0 && line.last() == '\n' {
        line.drop_last()
    } else {
        line
    }
}

pub fn trim_newline(line: &str) -> (r: String)
    ensures
        r@ == without_newline(line@),
{
    let v = chars_of(line);
    if v.len() > 0 && v[v.len() - 1] == '\n' {
        string_range(&v, 0, v.len() - 1)
    } else {
        assert(v@.subrange(0, v@.len() as int) =~= v@);
        string_range(&v, 0, v.len())
    }
}

/// The repository names listed one per line: a final newline ends the last
/// name rather than starting another.
pub fn repo_names(text: &str) -> (r: Vec<String>)
    ensures
        views(r@) == terminated_lines(text@),
{
    let lines = terminated_lines_of(&chars_of(text));
    let mut out: Vec<String> = Vec::new();
    let mut i: usize = 0;
    while i < lines.len()
        invariant
            i <= lines@.len(),
            char_views(lines@) == terminated_lines(text@),
            views(out@) == char_views(lines@).take(i as int),
        decreases lines@.len() - i,
    {
        let ghost before = views(out@);
        out.push(string_of(lines[i].as_slice()));
        assert(views(out@) =~= before.push(lines@[i as int]@));
        assert(char_views(lines@)[i as int] == lines@[i as int]@);
        assert(views(out@) =~= char_views(lines@).take(i + 1));
        i = i + 1;
    }
    assert(char_views(lines@).take(i as int) =~= char_views(lines@));
    out
}

/// The file name of a repository's index.
pub open spec fn index_file(repo: Seq<char>) -> Seq<char> {
    repo + ".pacfiles"@
}

pub fn index_file_name(repo: &str) -> (r: String)
    ensures
        r@ == index_file(repo@),
{
    let mut r = String::from_str(repo);
    r.append(".pacfiles");
    r
}

/// The repository whose archive has this file name: `repo.files`, with a
/// non-empty `repo`.
pub open spec fn archive_repo(name: Seq<char>) -> Option<Seq<char>> {
    if ends_with(name, ".files"@) && name.len() > ".files"@.len() {
        Some(name.subrange(0, name.len() - ".files"@.len()))
    } else {
        None
    }
}

pub fn archive_repo_name(name: &str) -> (r: Option<String>)
    ensures
        match r {
            Some(repo) => archive_repo(name@) == Some(repo@),
            None => archive_repo(name@) is None,
        },
{
    let v = chars_of(name);
    let suffix = chars_of(".files");
    proof {
        reveal_strlit(".files");
    }
    if chars_end_with(&v, &suffix) && v.len() > suffix.len() {
        Some(string_range(&v, 0, v.len() - suffix.len()))
    } else {
        None
    }
}

} // verus!
