//! Decoding of Index Lines `name-version-release/path` into match records.
use vstd::prelude::*;
use crate::text::{
    chars_of, find_first, find_last, first_index_of, has_no, is_first, is_last, last_index_of,
    lemma_first_index, lemma_first_index_of, lemma_last_index, lemma_last_index_of,
};

verus! {

/// In a package directory name `name-version-release`, the hyphen before the release.
pub open spec fn release_dash(d: Seq<char>) -> int {
    last_index_of(d, '-')
}

/// In a package directory name `name-version-release`, the hyphen before the version.
pub open spec fn version_dash(d: Seq<char>) -> int {
    last_index_of(d.subrange(0, release_dash(d)), '-')
}

/// `d` splits from the right into name, version and release.
pub open spec fn is_package_dir(d: Seq<char>) -> bool {
    release_dash(d) >= 0 && version_dash(d) >= 0
}

/// The package name of a directory name: all before the hyphen that precedes the version.
pub open spec fn dir_pkgname(d: Seq<char>) -> Seq<char> {
    d.subrange(0, version_dash(d))
}

/// The full version `version-release` of a directory name.
pub open spec fn dir_version(d: Seq<char>) -> Seq<char> {
    d.subrange(version_dash(d) + 1, d.len() as int)
}

/// Position of the slash that ends the directory part of an Index Line.
pub open spec fn slash_index(l: Seq<char>) -> int {
    first_index_of(l, '/')
}

/// The directory part `name-version-release` of an Index Line.
pub open spec fn line_dir(l: Seq<char>) -> Seq<char> {
    l.subrange(0, slash_index(l))
}

/// `l` has a slash, and the part before its first slash is a package directory name.
pub open spec fn is_index_line(l: Seq<char>) -> bool {
    slash_index(l) >= 0 && is_package_dir(line_dir(l))
}

pub open spec fn line_pkgname(l: Seq<char>) -> Seq<char> {
    dir_pkgname(line_dir(l))
}

pub open spec fn line_version(l: Seq<char>) -> Seq<char> {
    dir_version(line_dir(l))
}

pub open spec fn line_path(l: Seq<char>) -> Seq<char> {
    l.subrange(slash_index(l) + 1, l.len() as int)
}

/// The Index Line of file `path` of the package directory `dir`.
pub open spec fn index_line(dir: Seq<char>, path: Seq<char>) -> Seq<char> {
    dir + seq!['/'] + path
}

/// The directory name of package `name` at version `ver` and release `rel`.
pub open spec fn package_dir(name: Seq<char>, ver: Seq<char>, rel: Seq<char>) -> Seq<char> {
    name + seq!['-'] + ver + seq!['-'] + rel
}

/// Decoding an Index Line and putting its parts back together gives the line again:
/// `pkgname + "-" + version + "/" + path == line`.
pub proof fn lemma_line_round_trip(l: Seq<char>)
    requires
        is_index_line(l),
    ensures
        index_line(line_pkgname(l) + seq!['-'] + line_version(l), line_path(l)) == l,
{
    let s = slash_index(l);
    let d = line_dir(l);
    let v = version_dash(d);
    let r = release_dash(d);
    lemma_first_index_of(l, '/');
    lemma_last_index_of(d, '-');
    lemma_last_index_of(d.subrange(0, r), '-');
    assert(d.subrange(0, r)[v] == '-');
    assert(d[v] == '-');
    assert(line_pkgname(l) + seq!['-'] + line_version(l) =~= d);
    assert(l[s] == '/');
    assert(index_line(d, line_path(l)) =~= l);
}

/// A line `name-ver-rel/path` built from a name without `/`, and a version and a
/// release without `-` or `/`, decodes to exactly that name, `ver-rel` and that path.
pub proof fn lemma_line_parts(
    name: Seq<char>,
    ver: Seq<char>,
    rel: Seq<char>,
    path: Seq<char>,
)
    requires
        has_no(name, '/'),
        has_no(ver, '/'),
        has_no(ver, '-'),
        has_no(rel, '/'),
        has_no(rel, '-'),
    ensures
        is_index_line(index_line(package_dir(name, ver, rel), path)),
        line_pkgname(index_line(package_dir(name, ver, rel), path)) == name,
        line_version(index_line(package_dir(name, ver, rel), path)) == ver + seq!['-'] + rel,
        line_path(index_line(package_dir(name, ver, rel), path)) == path,
{
    let d = package_dir(name, ver, rel);
    let l = index_line(d, path);
    let s = d.len() as int;
    assert(is_first(l, '/', s)) by {
        assert forall|i: int| 0 <= i < s implies #[trigger] l.subrange(0, s)[i] != '/' by {
            assert(l.subrange(0, s)[i] == d[i]);
            if i < name.len() {
                assert(d[i] == name[i]);
            } else if i == name.len() {
            } else if i < name.len() + 1 + ver.len() {
                assert(d[i] == ver[i - name.len() - 1]);
            } else if i == name.len() + 1 + ver.len() {
            } else {
                assert(d[i] == rel[i - name.len() - 2 - ver.len()]);
            }
        }
    }
    lemma_first_index(l, '/', s);
    assert(line_dir(l) =~= d);
    let r = (name.len() + 1 + ver.len()) as int;
    assert(is_last(d, '-', r)) by {
        assert(d.subrange(r + 1, d.len() as int) =~= rel);
    }
    lemma_last_index(d, '-', r);
    let p = d.subrange(0, r);
    let v = name.len() as int;
    assert(is_last(p, '-', v)) by {
        assert(p.subrange(v + 1, p.len() as int) =~= ver);
    }
    lemma_last_index(p, '-', v);
    assert(line_pkgname(l) =~= name);
    assert(line_version(l) =~= ver + seq!['-'] + rel);
    assert(line_path(l) =~= path);
}

/// One match of the index: an Index Line, with the positions (in characters) at
/// which its version and its path start.
pub struct PackageFile {
    line: String,
    version_start: usize,
    filepath_start: usize,
}

impl View for PackageFile {
    type V = Seq<char>;

    closed spec fn view(&self) -> Seq<char> {
        self.line@
    }
}

/// Splits a package directory name held in `v[0..end]`: the positions of the
/// hyphens before the version and before the release.
pub(crate) fn split_dir(v: &Vec<char>, end: usize) -> (r: Option<(usize, usize)>)
    requires
        end <= v@.len(),
    ensures
        r is Some <==> is_package_dir(v@.subrange(0, end as int)),
        r matches Some((ver, rel)) ==> ver == version_dash(v@.subrange(0, end as int))
            && rel == release_dash(v@.subrange(0, end as int)) && ver < rel < end,
{
    let ghost d = v@.subrange(0, end as int);
    match find_last(v, '-', end) {
        None => None,
        Some(rel) => {
            proof {
                assert(v@.subrange(0, rel as int) =~= d.subrange(0, rel as int));
            }
            match find_last(v, '-', rel) {
                None => None,
                Some(ver) => Some((ver, rel)),
            }
        },
    }
}

/// `name` is a package directory name `name-version-release`.
pub fn is_package_dir_name(name: &str) -> (r: bool)
    ensures
        r == is_package_dir(name@),
{
    let chars = chars_of(name);
    assert(chars@.subrange(0, chars@.len() as int) =~= chars@);
    split_dir(&chars, chars.len()).is_some()
}

/// Decodes a line held as characters: the positions at which its version and its
/// path start.
fn line_offsets(v: &Vec<char>) -> (r: Option<(usize, usize)>)
    ensures
        r is Some <==> is_index_line(v@),
        r matches Some((vs, fs)) ==> vs == version_dash(line_dir(v@)) + 1 && fs == slash_index(
            v@,
        ) + 1 && vs < fs <= v@.len(),
{
    assert(v@.subrange(0, v@.len() as int) =~= v@);
    match find_first(v, '/', v.len()) {
        None => None,
        Some(slash) => {
            proof {
                assert(v@.subrange(0, slash as int) =~= line_dir(v@));
            }
            match split_dir(v, slash) {
                None => None,
                Some((ver, _rel)) => Some((ver + 1, slash + 1)),
            }
        },
    }
}

impl PackageFile {
    #[verifier::type_invariant]
    spec fn well_formed(self) -> bool {
        &&& is_index_line(self.line@)
        &&& self.version_start == version_dash(line_dir(self.line@)) + 1
        &&& self.filepath_start == slash_index(self.line@) + 1
        &&& self.version_start < self.filepath_start <= self.line@.len()
    }

    /// Decodes an Index Line.
    pub fn new(line: String) -> (r: PackageFile)
        requires
            is_index_line(line@),
        ensures
            r@ == line@,
    {
        let chars = chars_of(line.as_str());
        let (version_start, filepath_start) = line_offsets(&chars).unwrap();
        PackageFile { line, version_start, filepath_start }
    }

    /// Decodes `line` when it is an Index Line.
    pub fn parse(line: String) -> (r: Option<PackageFile>)
        ensures
            r is Some <==> is_index_line(line@),
            r matches Some(pf) ==> pf@ == line@,
    {
        let chars = chars_of(line.as_str());
        match line_offsets(&chars) {
            Some((version_start, filepath_start)) => Some(
                PackageFile { line, version_start, filepath_start },
            ),
            None => None,
        }
    }

    pub fn pkgname(&self) -> (r: &str)
        ensures
            r@ == line_pkgname(self@),
            is_index_line(self@),
    {
        proof {
            use_type_invariant(self);
        }
        self.line.as_str().substring_char(0, self.version_start - 1)
    }

    pub fn version(&self) -> (r: &str)
        ensures
            r@ == line_version(self@),
            is_index_line(self@),
    {
        proof {
            use_type_invariant(self);
        }
        self.line.as_str().substring_char(self.version_start, self.filepath_start - 1)
    }

    pub fn path(&self) -> (r: &str)
        ensures
            r@ == line_path(self@),
            is_index_line(self@),
    {
        proof {
            use_type_invariant(self);
        }
        self.line.as_str().substring_char(self.filepath_start, self.line.as_str().unicode_len())
    }
}

} // verus!
