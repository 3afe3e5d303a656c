//! Listing the files of named packages from the matcher's results.
use vstd::prelude::*;
use crate::package_file::{line_path, line_pkgname, PackageFile};
use crate::query::match_views;
use crate::render::{paint, painted, Tint};
use crate::text::{chars_of, find_first, first_index_of, same_str, string_range};

verus! {

broadcast use Seq::lemma_flatten_push;

/// What a package argument `repo/name` or `name` asks for.
pub struct ListTarget {
    /// The one repository to search, if given.
    pub repo: Option<String>,
    pub pkgname: String,
    /// The pattern handed to the matcher: `name-*`.
    pub pattern: String,
}

/// The repository named in a package argument, if any: the text before its first slash.
pub open spec fn target_repo(arg: Seq<char>) -> Option<Seq<char>> {
    let s = first_index_of(arg, '/');
    if s >= 0 {
        Some(arg.subrange(0, s))
    } else {
        None
    }
}

/// The package named in a package argument: the text after its first slash, if any.
pub open spec fn target_pkgname(arg: Seq<char>) -> Seq<char> {
    let s = first_index_of(arg, '/');
    if s >= 0 {
        arg.subrange(s + 1, arg.len() as int)
    } else {
        arg
    }
}

/// Reads a package argument.
pub fn list_target(arg: &str) -> (r: ListTarget)
    ensures
        match r.repo {
            Some(repo) => target_repo(arg@) == Some(repo@),
            None => target_repo(arg@) is None,
        },
        r.pkgname@ == target_pkgname(arg@),
        r.pattern@ == target_pkgname(arg@) + seq!['-', '*'],
{
    let v = chars_of(arg);
    assert(v@.subrange(0, v@.len() as int) =~= v@);
    let (repo, pkgname) = match find_first(&v, '/', v.len()) {
        Some(s) => (Some(string_range(&v, 0, s)), string_range(&v, s + 1, v.len())),
        None => (None, string_range(&v, 0, v.len())),
    };
    let mut pattern = pkgname.clone();
    proof {
        reveal_strlit("-*");
    }
    pattern.append("-*");
    assert("-*"@ =~= seq!['-', '*']);
    ListTarget { repo, pkgname, pattern }
}

/// One line of listing output.
pub enum ListLine {
    /// Quiet mode: the path alone.
    Path { path: String },
    /// The package's name and the path.
    Owned { pkgname: String, path: String },
    /// This package argument matched nothing (written to the error stream).
    NotFound { package: String },
}

pub enum ListLineView {
    Path { path: Seq<char> },
    Owned { pkgname: Seq<char>, path: Seq<char> },
    NotFound { package: Seq<char> },
}

impl View for ListLine {
    type V = ListLineView;

    open spec fn view(&self) -> ListLineView {
        match self {
            ListLine::Path { path } => ListLineView::Path { path: path@ },
            ListLine::Owned { pkgname, path } => ListLineView::Owned {
                pkgname: pkgname@,
                path: path@,
            },
            ListLine::NotFound { package } => ListLineView::NotFound { package: package@ },
        }
    }
}

pub open spec fn list_views(lines: Seq<ListLine>) -> Seq<ListLineView> {
    lines.map_values(|l: ListLine| l@)
}

/// The listing of one repository's matches: each match of exactly package `name`,
/// in order; the matcher's pattern also finds packages whose names merely start so.
pub open spec fn listed(name: Seq<char>, quiet: bool, ms: Seq<Seq<char>>) -> Seq<ListLineView>
    decreases ms.len(),
{
    if ms.len() == 0 {
        Seq::empty()
    } else {
        let prev = listed(name, quiet, ms.drop_last());
        let l = ms.last();
        if line_pkgname(l) != name {
            prev
        } else if quiet {
            prev.push(ListLineView::Path { path: line_path(l) })
        } else {
            prev.push(ListLineView::Owned { pkgname: name, path: line_path(l) })
        }
    }
}

/// Lists the matches of package `pkgname` among one repository's matches.
pub fn list_matches(pkgname: &str, quiet: bool, matches: &Vec<PackageFile>) -> (r: Vec<ListLine>)
    ensures
        list_views(r@) == listed(pkgname@, quiet, match_views(matches@)),
{
    let mut out: Vec<ListLine> = Vec::new();
    let mut i: usize = 0;
    while i < matches.len()
        invariant
            i <= matches@.len(),
            list_views(out@) == listed(pkgname@, quiet, match_views(matches@).take(i as int)),
        decreases matches@.len() - i,
    {
        let pf = &matches[i];
        let ghost before = list_views(out@);
        if same_str(pf.pkgname(), pkgname) {
            if quiet {
                out.push(ListLine::Path { path: String::from_str(pf.path()) });
            } else {
                out.push(
                    ListLine::Owned { pkgname: String::from_str(pkgname), path: String::from_str(pf.path()) },
                );
            }
            assert(list_views(out@) =~= before.push(list_views(out@).last()));
        }
        proof {
            let ms = match_views(matches@);
            assert(ms.take(i + 1).drop_last() =~= ms.take(i as int));
            assert(ms.take(i + 1).last() == pf@);
        }
        i = i + 1;
    }
    assert(match_views(matches@).take(i as int) =~= match_views(matches@));
    out
}

/// The listing of one package argument over the repositories searched for it,
/// followed by a not-found line when nothing was listed.
pub open spec fn package_listing(
    arg: Seq<char>,
    quiet: bool,
    ms: Seq<Seq<Seq<char>>>,
) -> Seq<ListLineView> {
    let lines = Seq::new(ms.len(), |r: int| listed(target_pkgname(arg), quiet, ms[r])).flatten();
    if lines.len() == 0 {
        seq![ListLineView::NotFound { package: arg }]
    } else {
        lines
    }
}

/// The argument found something.
pub open spec fn package_found(arg: Seq<char>, quiet: bool, ms: Seq<Seq<Seq<char>>>) -> bool {
    Seq::new(ms.len(), |r: int| listed(target_pkgname(arg), quiet, ms[r])).flatten().len() > 0
}

pub open spec fn nested_views(ms: Seq<Vec<Vec<PackageFile>>>) -> Seq<Seq<Seq<Seq<char>>>> {
    ms.map_values(|m: Vec<Vec<PackageFile>>| m@.map_values(|x: Vec<PackageFile>| match_views(x@)))
}

/// Lists the files of each package argument: `matches[p]` holds what the matcher
/// returned for the pattern of argument `p`, in each repository searched for it.
/// Returns the lines and whether any argument found something.
pub fn list_packages(packages: &Vec<String>, quiet: bool, matches: &Vec<Vec<Vec<PackageFile>>>) -> (r: (
    Vec<ListLine>,
    bool,
))
    requires
        matches@.len() == packages@.len(),
    ensures
        list_views(r.0@) == Seq::new(
            packages@.len(),
            |p: int| package_listing(packages@[p]@, quiet, nested_views(matches@)[p]),
        ).flatten(),
        r.1 == exists|p: int|
            0 <= p < packages@.len() && #[trigger] package_found(
                packages@[p]@,
                quiet,
                nested_views(matches@)[p],
            ),
{
    let ghost ms = nested_views(matches@);
    let ghost per_arg = Seq::new(
        packages@.len(),
        |p: int| package_listing(packages@[p]@, quiet, ms[p]),
    );
    let mut out: Vec<ListLine> = Vec::new();
    let mut any = false;
    let mut p: usize = 0;
    while p < packages.len()
        invariant
            p <= packages@.len(),
            matches@.len() == packages@.len(),
            ms == nested_views(matches@),
            per_arg == Seq::new(
                packages@.len(),
                |k: int| package_listing(packages@[k]@, quiet, ms[k]),
            ),
            list_views(out@) == per_arg.take(p as int).flatten(),
            any == exists|k: int|
                0 <= k < p && #[trigger] package_found(packages@[k]@, quiet, ms[k]),
        decreases packages@.len() - p,
    {
        let target = list_target(packages[p].as_str());
        let ghost name = target_pkgname(packages@[p as int]@);
        let ghost per_repo = Seq::new(ms[p as int].len(), |r: int| listed(name, quiet, ms[p as int][r]));
        let ghost before = list_views(out@);
        let mut lines: Vec<ListLine> = Vec::new();
        let mut r: usize = 0;
        while r < matches[p].len()
            invariant
                p < packages@.len(),
                matches@.len() == packages@.len(),
                r <= matches@[p as int]@.len(),
                ms == nested_views(matches@),
                target.pkgname@ == name,
                per_repo == Seq::new(ms[p as int].len(), |k: int| listed(name, quiet, ms[p as int][k])),
                list_views(lines@) == per_repo.take(r as int).flatten(),
            decreases matches@[p as int]@.len() - r,
        {
            let mut found = list_matches(target.pkgname.as_str(), quiet, &matches[p][r]);
            let ghost mid = list_views(lines@);
            lines.append(&mut found);
            proof {
                assert(ms[p as int][r as int] == match_views(matches@[p as int]@[r as int]@));
                assert(list_views(lines@) =~= mid + per_repo[r as int]);
                assert(per_repo.take(r + 1) =~= per_repo.take(r as int).push(per_repo[r as int]));
            }
            r = r + 1;
        }
        proof {
            assert(per_repo.take(r as int) =~= per_repo);
        }
        let found = lines.len() > 0;
        if !found {
            lines.push(ListLine::NotFound { package: packages[p].clone() });
            assert(list_views(lines@) =~= seq![ListLineView::NotFound { package: packages@[p as int]@ }]);
        }
        let ghost mid = list_views(out@);
        out.append(&mut lines);
        proof {
            assert(per_arg[p as int] == package_listing(packages@[p as int]@, quiet, ms[p as int]));
            assert(list_views(out@) =~= mid + per_arg[p as int]);
            assert(per_arg.take(p + 1) =~= per_arg.take(p as int).push(per_arg[p as int]));
            assert(found == package_found(packages@[p as int]@, quiet, ms[p as int]));
        }
        any = any || found;
        p = p + 1;
    }
    assert(per_arg.take(p as int) =~= per_arg);
    (out, any)
}

/// The text of one listing line.
pub open spec fn rendered_list_line(l: ListLineView) -> Seq<char> {
    match l {
        ListLineView::Path { path } => path,
        ListLineView::Owned { pkgname, path } => painted(Tint::Plain, pkgname) + " "@ + path,
        ListLineView::NotFound { package } => painted(Tint::Red, "error:"@) + " package '"@
            + package + "' was not found"@,
    }
}

/// The text of one listing line, without its newline.
pub fn render_list_line(line: &ListLine) -> (r: String)
    ensures
        r@ == rendered_list_line(line@),
{
    match line {
        ListLine::Path { path } => path.clone(),
        ListLine::Owned { pkgname, path } => {
            let mut r = paint(Tint::Plain, pkgname.as_str());
            r.append(" ");
            r.append(path.as_str());
            r
        },
        ListLine::NotFound { package } => {
            let mut r = paint(Tint::Red, "error:");
            r.append(" package '");
            r.append(package.as_str());
            r.append("' was not found");
            r
        },
    }
}

} // verus!
