//! Translation of user queries into matcher patterns, and grouping of the
//! matcher's results into output lines.
use vstd::prelude::*;
use vstd::seq_lib::lemma_flatten_concat;
use crate::installed::InstalledPackages;
use crate::package_file::{line_path, line_pkgname, line_version, PackageFile};
use crate::text::{chars_of, has_no, same_str, string_of, string_range, views};

verus! {

broadcast use Seq::lemma_flatten_push;

/// `c` occurs in `s`.
pub open spec fn holds_char(s: Seq<char>, c: char) -> bool {
    !has_no(s, c)
}

/// The query holds a shell glob metacharacter.
pub open spec fn is_glob(q: Seq<char>) -> bool {
    holds_char(q, '*') || holds_char(q, '?') || holds_char(q, '[') || holds_char(q, ']')
}

/// A query with a slash is matched against full paths.
pub open spec fn is_fullpath(q: Seq<char>) -> bool {
    holds_char(q, '/')
}

/// The query without one leading slash.
pub open spec fn strip_root(q: Seq<char>) -> Seq<char> {
    if q.len() > 0 && q[0] == '/' {
        q.drop_first()
    } else {
        q
    }
}

/// The pattern handed to the matcher for query `q`.
pub open spec fn planned_pattern(q: Seq<char>, regex: bool) -> Seq<char> {
    if regex {
        q
    } else if is_fullpath(q) {
        seq!['*', '/'] + strip_root(q)
    } else if is_glob(q) {
        q
    } else {
        seq!['[', q[0], ']'] + q.drop_first()
    }
}

/// The exact path that a result of query `q` must have, if any.
pub open spec fn planned_validation(q: Seq<char>, regex: bool) -> Option<Seq<char>> {
    if !regex && is_fullpath(q) {
        Some(strip_root(q))
    } else {
        None
    }
}

pub open spec fn opt_view(o: Option<String>) -> Option<Seq<char>> {
    match o {
        Some(s) => Some(s@),
        None => None,
    }
}

/// How one user query is run against each repository's index.
pub struct QueryPlan {
    /// The pattern handed to the matcher.
    pub pattern: String,
    /// The pattern is a regular expression.
    pub regex: bool,
    /// Match against base names only.
    pub basename: bool,
    /// A result is kept only if its path is exactly this one.
    pub validating_path: Option<String>,
}

/// Some character of `cs` occurs in `v`.
fn holds_any(v: &Vec<char>, cs: &Vec<char>) -> (r: bool)
    ensures
        r == exists|k: int| 0 <= k < cs@.len() && holds_char(v@, #[trigger] cs@[k]),
{
    let mut k: usize = 0;
    while k < cs.len()
        invariant
            k <= cs@.len(),
            forall|j: int| 0 <= j < k ==> !holds_char(v@, #[trigger] cs@[j]),
        decreases cs@.len() - k,
    {
        let mut i: usize = 0;
        while i < v.len()
            invariant
                k < cs@.len(),
                i <= v@.len(),
                forall|j: int| 0 <= j < i ==> v@[j] != cs@[k as int],
            decreases v@.len() - i,
        {
            if v[i] == cs[k] {
                assert(v@[i as int] == cs@[k as int]);
                return true;
            }
            i = i + 1;
        }
        k = k + 1;
    }
    false
}

/// Translates a user query into what the matcher is given for it.
pub fn plan_query(query: &str, regex: bool) -> (r: QueryPlan)
    requires
        regex || query@.len() > 0,
    ensures
        r.pattern@ == planned_pattern(query@, regex),
        r.regex == regex,
        r.basename == !is_fullpath(query@),
        opt_view(r.validating_path) == planned_validation(query@, regex),
{
    let q = chars_of(query);
    let slash = vec!['/'];
    let fullpath = holds_any(&q, &slash);
    proof {
        assert(slash@[0] == '/');
        assert(fullpath == is_fullpath(query@));
    }
    if regex {
        return QueryPlan {
            pattern: string_of(q.as_slice()),
            regex: true,
            basename: !fullpath,
            validating_path: None,
        };
    }
    if fullpath {
        let start: usize = if q[0] == '/' { 1 } else { 0 };
        let stripped = string_range(&q, start, q.len());
        let mut p: Vec<char> = vec!['*', '/'];
        let mut i: usize = start;
        while i < q.len()
            invariant
                start <= i <= q@.len(),
                p@ == seq!['*', '/'] + q@.subrange(start as int, i as int),
            decreases q@.len() - i,
        {
            p.push(q[i]);
            assert(q@.subrange(start as int, i + 1) =~= q@.subrange(start as int, i as int).push(
                q@[i as int],
            ));
            i = i + 1;
        }
        proof {
            assert(q@.subrange(start as int, q@.len() as int) =~= strip_root(query@));
        }
        return QueryPlan {
            pattern: string_of(p.as_slice()),
            regex: false,
            basename: false,
            validating_path: Some(stripped),
        };
    }
    let metas = vec!['*', '?', '[', ']'];
    let glob = holds_any(&q, &metas);
    proof {
        assert(metas@[0] == '*' && metas@[1] == '?' && metas@[2] == '[' && metas@[3] == ']');
        if is_glob(query@) {
            if holds_char(q@, '*') {
                assert(holds_char(q@, metas@[0]));
            } else if holds_char(q@, '?') {
                assert(holds_char(q@, metas@[1]));
            } else if holds_char(q@, '[') {
                assert(holds_char(q@, metas@[2]));
            } else {
                assert(holds_char(q@, metas@[3]));
            }
        }
        assert(glob == is_glob(query@));
    }
    if glob {
        return QueryPlan {
            pattern: string_of(q.as_slice()),
            regex: false,
            basename: true,
            validating_path: None,
        };
    }
    let mut p: Vec<char> = vec!['[', q[0], ']'];
    let mut i: usize = 1;
    while i < q.len()
        invariant
            1 <= i <= q@.len(),
            p@ == seq!['[', q@[0], ']'] + q@.subrange(1, i as int),
        decreases q@.len() - i,
    {
        p.push(q[i]);
        assert(q@.subrange(1, i + 1) =~= q@.subrange(1, i as int).push(q@[i as int]));
        i = i + 1;
    }
    assert(q@.subrange(1, q@.len() as int) =~= query@.drop_first());
    QueryPlan { pattern: string_of(p.as_slice()), regex: false, basename: true, validating_path: None }
}

/// How a found package relates to the locally installed packages.
pub enum Annotation {
    NotInstalled,
    /// The installed version is the one found.
    Installed,
    /// Another version, this one, is installed.
    InstalledOther(String),
}

pub enum AnnotationView {
    NotInstalled,
    Installed,
    InstalledOther(Seq<char>),
}

impl View for Annotation {
    type V = AnnotationView;

    open spec fn view(&self) -> AnnotationView {
        match self {
            Annotation::NotInstalled => AnnotationView::NotInstalled,
            Annotation::Installed => AnnotationView::Installed,
            Annotation::InstalledOther(v) => AnnotationView::InstalledOther(v@),
        }
    }
}

/// One line of query output.
pub enum OutputLine {
    /// Quiet mode: `repo/pkgname`.
    Owner { repo: String, pkgname: String },
    /// The first match of a package: repository, name, version and annotation.
    Header { repo: String, pkgname: String, version: String, installed: Annotation },
    /// A matched path, under its package's header.
    Path { path: String },
    /// A full-path query: `path is owned by repo/pkgname version`.
    OwnedBy { path: String, repo: String, pkgname: String, version: String },
}

pub enum LineView {
    Owner { repo: Seq<char>, pkgname: Seq<char> },
    Header {
        repo: Seq<char>,
        pkgname: Seq<char>,
        version: Seq<char>,
        installed: AnnotationView,
    },
    Path { path: Seq<char> },
    OwnedBy { path: Seq<char>, repo: Seq<char>, pkgname: Seq<char>, version: Seq<char> },
}

impl View for OutputLine {
    type V = LineView;

    open spec fn view(&self) -> LineView {
        match self {
            OutputLine::Owner { repo, pkgname } => LineView::Owner { repo: repo@, pkgname: pkgname@ },
            OutputLine::Header { repo, pkgname, version, installed } => LineView::Header {
                repo: repo@,
                pkgname: pkgname@,
                version: version@,
                installed: installed@,
            },
            OutputLine::Path { path } => LineView::Path { path: path@ },
            OutputLine::OwnedBy { path, repo, pkgname, version } => LineView::OwnedBy {
                path: path@,
                repo: repo@,
                pkgname: pkgname@,
                version: version@,
            },
        }
    }
}

pub open spec fn line_views(lines: Seq<OutputLine>) -> Seq<LineView> {
    lines.map_values(|l: OutputLine| l@)
}

pub open spec fn match_views(ms: Seq<PackageFile>) -> Seq<Seq<char>> {
    ms.map_values(|m: PackageFile| m@)
}

/// The annotation of package `name` found at `version`.
pub open spec fn annotation_of(
    installed: Map<Seq<char>, Seq<char>>,
    name: Seq<char>,
    version: Seq<char>,
) -> AnnotationView {
    if !installed.contains_key(name) {
        AnnotationView::NotInstalled
    } else if installed[name] == version {
        AnnotationView::Installed
    } else {
        AnnotationView::InstalledOther(installed[name])
    }
}

/// What the grouping of one repository's results depends on.
pub struct GroupConfig {
    pub repo: Seq<char>,
    pub quiet: bool,
    pub validating: Option<Seq<char>>,
    pub installed: Map<Seq<char>, Seq<char>>,
}

/// Match `l` continues the package of the previous accepted match.
pub open spec fn continues(last: Option<Seq<char>>, l: Seq<char>) -> bool {
    last == Some(line_pkgname(l))
}

/// Match `l` is reported: in quiet mode only the first match of a package is, and
/// under a full-path query only a match of exactly that path is.
pub open spec fn accepts(cfg: GroupConfig, last: Option<Seq<char>>, l: Seq<char>) -> bool {
    &&& !(cfg.quiet && continues(last, l))
    &&& match cfg.validating {
        Some(p) => line_path(l) == p,
        None => true,
    }
}

/// The lines printed for an accepted match `l`.
pub open spec fn emitted(cfg: GroupConfig, last: Option<Seq<char>>, l: Seq<char>) -> Seq<LineView> {
    let name = line_pkgname(l);
    let version = line_version(l);
    let path = line_path(l);
    if cfg.quiet {
        seq![LineView::Owner { repo: cfg.repo, pkgname: name }]
    } else if cfg.validating is Some {
        seq![LineView::OwnedBy { path, repo: cfg.repo, pkgname: name, version }]
    } else if continues(last, l) {
        seq![LineView::Path { path }]
    } else {
        seq![
            LineView::Header {
                repo: cfg.repo,
                pkgname: name,
                version,
                installed: annotation_of(cfg.installed, name, version),
            },
            LineView::Path { path },
        ]
    }
}

/// Grouping a repository's matches, in order: the package of the last accepted
/// match, the lines printed, and whether any match was accepted.
pub open spec fn grouped(cfg: GroupConfig, lines: Seq<Seq<char>>) -> (
    Option<Seq<char>>,
    Seq<LineView>,
    bool,
)
    decreases lines.len(),
{
    if lines.len() == 0 {
        (None, Seq::empty(), false)
    } else {
        let (last, out, found) = grouped(cfg, lines.drop_last());
        let l = lines.last();
        if accepts(cfg, last, l) {
            (Some(line_pkgname(l)), out + emitted(cfg, last, l), true)
        } else {
            (last, out, found)
        }
    }
}

/// Without an accepted match nothing is printed.
pub proof fn lemma_unfound_prints_nothing(cfg: GroupConfig, lines: Seq<Seq<char>>)
    ensures
        !grouped(cfg, lines).2 ==> grouped(cfg, lines).1.len() == 0,
    decreases lines.len(),
{
    if lines.len() > 0 {
        lemma_unfound_prints_nothing(cfg, lines.drop_last());
    }
}

/// In quiet mode, three matches of one package followed by a match of another
/// print two lines: one per package.
pub proof fn lemma_quiet_one_line_per_package(
    cfg: GroupConfig,
    a: Seq<char>,
    b: Seq<char>,
    c: Seq<char>,
    d: Seq<char>,
)
    requires
        cfg.quiet,
        cfg.validating is None,
        line_pkgname(a) == line_pkgname(b),
        line_pkgname(b) == line_pkgname(c),
        line_pkgname(c) != line_pkgname(d),
    ensures
        grouped(cfg, seq![a, b, c, d]).1 == seq![
            LineView::Owner { repo: cfg.repo, pkgname: line_pkgname(a) },
            LineView::Owner { repo: cfg.repo, pkgname: line_pkgname(d) },
        ],
{
    let ls = seq![a, b, c, d];
    let l3 = seq![a, b, c];
    let l2 = seq![a, b];
    let l1 = seq![a];
    assert(ls.drop_last() =~= l3 && ls.last() == d);
    assert(l3.drop_last() =~= l2 && l3.last() == c);
    assert(l2.drop_last() =~= l1 && l2.last() == b);
    assert(l1.drop_last() =~= Seq::<Seq<char>>::empty() && l1.last() == a);
    let na = line_pkgname(a);
    let g0 = grouped(cfg, Seq::empty());
    assert(g0 == (None::<Seq<char>>, Seq::<LineView>::empty(), false));
    let g1 = grouped(cfg, l1);
    assert(accepts(cfg, g0.0, a));
    assert(g1.0 == Some(na));
    assert(g1.1 =~= seq![LineView::Owner { repo: cfg.repo, pkgname: na }]);
    let g2 = grouped(cfg, l2);
    assert(!accepts(cfg, g1.0, b));
    assert(g2 == g1);
    let g3 = grouped(cfg, l3);
    assert(!accepts(cfg, g2.0, c));
    assert(g3 == g1);
    assert(accepts(cfg, g3.0, d));
    assert(grouped(cfg, ls).1 =~= seq![
        LineView::Owner { repo: cfg.repo, pkgname: na },
        LineView::Owner { repo: cfg.repo, pkgname: line_pkgname(d) },
    ]);
}

/// The line reports path `p` as owned.
pub open spec fn reports_owner_of(l: LineView, p: Seq<char>) -> bool {
    match l {
        LineView::OwnedBy { path, .. } => path == p,
        _ => false,
    }
}

/// Under a full-path query in verbose mode, every line printed names the
/// requested path as owned: no other path is reported.
pub proof fn lemma_validated_paths_exact(cfg: GroupConfig, lines: Seq<Seq<char>>, p: Seq<char>)
    requires
        !cfg.quiet,
        cfg.validating == Some(p),
    ensures
        forall|i: int|
            0 <= i < grouped(cfg, lines).1.len() ==> reports_owner_of(
                #[trigger] grouped(cfg, lines).1[i],
                p,
            ),
    decreases lines.len(),
{
    if lines.len() > 0 {
        lemma_validated_paths_exact(cfg, lines.drop_last(), p);
        let prev = grouped(cfg, lines.drop_last());
        let out = grouped(cfg, lines).1;
        assert forall|i: int| 0 <= i < out.len() implies reports_owner_of(#[trigger] out[i], p) by {
            if i >= prev.1.len() {
                assert(accepts(cfg, prev.0, lines.last()));
            } else {
                assert(out[i] == prev.1[i]);
            }
        }
    }
}

/// Groups one repository's matches, in the matcher's order, into output lines.
/// Returns the lines and whether any match was reported.
pub fn group_matches(
    repo: &str,
    quiet: bool,
    validating_path: &Option<String>,
    installed: &InstalledPackages,
    matches: &Vec<PackageFile>,
) -> (r: (Vec<OutputLine>, bool))
    requires
        installed.wf(),
    ensures
        ({
            let cfg = GroupConfig {
                repo: repo@,
                quiet,
                validating: opt_view(*validating_path),
                installed: installed@,
            };
            line_views(r.0@) == grouped(cfg, match_views(matches@)).1 && r.1 == grouped(
                cfg,
                match_views(matches@),
            ).2
        }),
{
    let ghost cfg = GroupConfig {
        repo: repo@,
        quiet,
        validating: opt_view(*validating_path),
        installed: installed@,
    };
    let mut out: Vec<OutputLine> = Vec::new();
    let mut last: Option<String> = None;
    let mut found = false;
    let mut i: usize = 0;
    while i < matches.len()
        invariant
            i <= matches@.len(),
            installed.wf(),
            cfg == (GroupConfig {
                repo: repo@,
                quiet,
                validating: opt_view(*validating_path),
                installed: installed@,
            }),
            (opt_view(last), line_views(out@), found) == grouped(
                cfg,
                match_views(matches@).take(i as int),
            ),
        decreases matches@.len() - i,
    {
        let pf = &matches[i];
        let pkgname = pf.pkgname();
        let path = pf.path();
        let ghost l = pf@;
        let same = match &last {
            Some(n) => same_str(n.as_str(), pkgname),
            None => false,
        };
        assert(same == continues(opt_view(last), l));
        let valid = match validating_path {
            Some(v) => same_str(path, v.as_str()),
            None => true,
        };
        let ghost before = line_views(out@);
        if !(quiet && same) && valid {
            let version = pf.version();
            if quiet {
                out.push(OutputLine::Owner { repo: String::from_str(repo), pkgname: String::from_str(pkgname) });
            } else if validating_path.is_some() {
                out.push(
                    OutputLine::OwnedBy {
                        path: String::from_str(path),
                        repo: String::from_str(repo),
                        pkgname: String::from_str(pkgname),
                        version: String::from_str(version),
                    },
                );
            } else {
                if !same {
                    let annotation = match installed.package_version(pkgname) {
                        Some(iv) => if same_str(iv, version) {
                            Annotation::Installed
                        } else {
                            Annotation::InstalledOther(String::from_str(iv))
                        },
                        None => Annotation::NotInstalled,
                    };
                    out.push(
                        OutputLine::Header {
                            repo: String::from_str(repo),
                            pkgname: String::from_str(pkgname),
                            version: String::from_str(version),
                            installed: annotation,
                        },
                    );
                }
                out.push(OutputLine::Path { path: String::from_str(path) });
            }
            assert(line_views(out@) =~= before + emitted(cfg, opt_view(last), l));
            last = Some(String::from_str(pkgname));
            found = true;
        }
        proof {
            let ms = match_views(matches@);
            assert(ms.take(i + 1).drop_last() =~= ms.take(i as int));
            assert(ms.take(i + 1).last() == l);
        }
        i = i + 1;
    }
    assert(match_views(matches@).take(i as int) =~= match_views(matches@));
    (out, found)
}

/// The matches of each repository, as Index Lines.
pub open spec fn repo_views(ms: Seq<Vec<PackageFile>>) -> Seq<Seq<Seq<char>>> {
    ms.map_values(|m: Vec<PackageFile>| match_views(m@))
}

/// The matches of each query in each repository, as Index Lines.
pub open spec fn batch_views(ms: Seq<Vec<Vec<PackageFile>>>) -> Seq<Seq<Seq<Seq<char>>>> {
    ms.map_values(|m: Vec<Vec<PackageFile>>| repo_views(m@))
}

/// The grouping of query `q`'s matches in repository `repo`.
pub open spec fn query_config(
    q: Seq<char>,
    regex: bool,
    quiet: bool,
    repo: Seq<char>,
    installed: Map<Seq<char>, Seq<char>>,
) -> GroupConfig {
    GroupConfig { repo, quiet, validating: planned_validation(q, regex), installed }
}

/// The output of query `q`: that of each repository, in order.
pub open spec fn query_output(
    q: Seq<char>,
    regex: bool,
    quiet: bool,
    repos: Seq<Seq<char>>,
    installed: Map<Seq<char>, Seq<char>>,
    ms: Seq<Seq<Seq<char>>>,
) -> Seq<LineView> {
    Seq::new(
        repos.len(),
        |r: int| grouped(query_config(q, regex, quiet, repos[r], installed), ms[r]).1,
    ).flatten()
}

/// Query `q` reported a match in some repository.
pub open spec fn query_found(
    q: Seq<char>,
    regex: bool,
    quiet: bool,
    repos: Seq<Seq<char>>,
    installed: Map<Seq<char>, Seq<char>>,
    ms: Seq<Seq<Seq<char>>>,
) -> bool {
    exists|r: int|
        0 <= r < repos.len() && #[trigger] grouped(
            query_config(q, regex, quiet, repos[r], installed),
            ms[r],
        ).2
}

/// The output of a batch of queries: that of each query, in order.
pub open spec fn batch_output(
    qs: Seq<Seq<char>>,
    regex: bool,
    quiet: bool,
    repos: Seq<Seq<char>>,
    installed: Map<Seq<char>, Seq<char>>,
    ms: Seq<Seq<Seq<Seq<char>>>>,
) -> Seq<LineView> {
    Seq::new(qs.len(), |q: int| query_output(qs[q], regex, quiet, repos, installed, ms[q])).flatten()
}

/// A batch succeeds when every one of its queries reported a match.
pub open spec fn batch_success(
    qs: Seq<Seq<char>>,
    regex: bool,
    quiet: bool,
    repos: Seq<Seq<char>>,
    installed: Map<Seq<char>, Seq<char>>,
    ms: Seq<Seq<Seq<Seq<char>>>>,
) -> bool {
    forall|q: int|
        0 <= q < qs.len() ==> #[trigger] query_found(qs[q], regex, quiet, repos, installed, ms[q])
}

/// Runs a batch of queries on the matcher's results: `matches[q][r]` holds what the
/// matcher returned, in its order, for the plan of query `q` on repository `r`.
/// Returns the output lines and whether every query reported a match.
pub fn query_files(
    queries: &Vec<String>,
    regex: bool,
    quiet: bool,
    repos: &Vec<String>,
    installed: &InstalledPackages,
    matches: &Vec<Vec<Vec<PackageFile>>>,
) -> (r: (Vec<OutputLine>, bool))
    requires
        installed.wf(),
        matches@.len() == queries@.len(),
        forall|q: int| 0 <= q < matches@.len() ==> (#[trigger] matches@[q])@.len() == repos@.len(),
    ensures
        line_views(r.0@) == batch_output(
            views(queries@),
            regex,
            quiet,
            views(repos@),
            installed@,
            batch_views(matches@),
        ),
        r.1 == batch_success(
            views(queries@),
            regex,
            quiet,
            views(repos@),
            installed@,
            batch_views(matches@),
        ),
{
    let ghost qs = views(queries@);
    let ghost rs = views(repos@);
    let ghost ms = batch_views(matches@);
    let ghost per_query = Seq::new(
        qs.len(),
        |q: int| query_output(qs[q], regex, quiet, rs, installed@, ms[q]),
    );
    let mut out: Vec<OutputLine> = Vec::new();
    let mut success = true;
    let mut q: usize = 0;
    while q < queries.len()
        invariant
            q <= queries@.len(),
            installed.wf(),
            matches@.len() == queries@.len(),
            forall|k: int| 0 <= k < matches@.len() ==> (#[trigger] matches@[k])@.len() == repos@.len(),
            qs == views(queries@),
            rs == views(repos@),
            ms == batch_views(matches@),
            per_query == Seq::new(
                qs.len(),
                |k: int| query_output(qs[k], regex, quiet, rs, installed@, ms[k]),
            ),
            line_views(out@) == per_query.take(q as int).flatten(),
            success == forall|k: int|
                0 <= k < q ==> #[trigger] query_found(qs[k], regex, quiet, rs, installed@, ms[k]),
        decreases queries@.len() - q,
    {
        let validating_path = plan_validation(queries[q].as_str(), regex);
        let ghost per_repo = Seq::new(
            rs.len(),
            |r: int| grouped(query_config(qs[q as int], regex, quiet, rs[r], installed@), ms[q as int][r]).1,
        );
        let ghost before = line_views(out@);
        let mut found = false;
        let mut r: usize = 0;
        while r < repos.len()
            invariant
                q < queries@.len(),
                r <= repos@.len(),
                installed.wf(),
                matches@.len() == queries@.len(),
                matches@[q as int]@.len() == repos@.len(),
                qs == views(queries@),
                rs == views(repos@),
                ms == batch_views(matches@),
                opt_view(validating_path) == planned_validation(qs[q as int], regex),
                per_repo == Seq::new(
                    rs.len(),
                    |k: int| grouped(query_config(qs[q as int], regex, quiet, rs[k], installed@), ms[q as int][k]).1,
                ),
                line_views(out@) == before + per_repo.take(r as int).flatten(),
                found == exists|k: int|
                    0 <= k < r && #[trigger] grouped(
                        query_config(qs[q as int], regex, quiet, rs[k], installed@),
                        ms[q as int][k],
                    ).2,
            decreases repos@.len() - r,
        {
            let (lines, repo_found) = group_matches(
                repos[r].as_str(),
                quiet,
                &validating_path,
                installed,
                &matches[q][r],
            );
            let ghost mid = line_views(out@);
            let mut lines = lines;
            out.append(&mut lines);
            proof {
                assert(ms[q as int][r as int] == match_views(matches@[q as int]@[r as int]@));
                assert(line_views(out@) =~= mid + per_repo[r as int]);
                assert(per_repo.take(r + 1) =~= per_repo.take(r as int).push(per_repo[r as int]));
            }
            found = found || repo_found;
            r = r + 1;
        }
        proof {
            assert(per_repo.take(r as int) =~= per_repo);
            assert(per_query[q as int] == per_repo.flatten());
            assert(per_query.take(q + 1) =~= per_query.take(q as int).push(per_query[q as int]));
            assert(rs.len() == r);
            assert(found == query_found(qs[q as int], regex, quiet, rs, installed@, ms[q as int]));
        }
        success = success && found;
        q = q + 1;
    }
    assert(per_query.take(q as int) =~= per_query);
    (out, success)
}

/// The exact path that results of `query` must have, if any.
fn plan_validation(query: &str, regex: bool) -> (r: Option<String>)
    ensures
        opt_view(r) == planned_validation(query@, regex),
{
    if regex {
        return None;
    }
    let q = chars_of(query);
    let slash = vec!['/'];
    if !holds_any(&q, &slash) {
        assert(slash@[0] == '/');
        return None;
    }
    assert(holds_char(q@, slash@[0]));
    let start: usize = if q[0] == '/' { 1 } else { 0 };
    assert(q@.subrange(start as int, q@.len() as int) =~= strip_root(query@));
    Some(string_range(&q, start, q.len()))
}

/// A sequence of empty outputs prints nothing.
proof fn lemma_flatten_empties(s: Seq<Seq<LineView>>)
    requires
        forall|i: int| 0 <= i < s.len() ==> (#[trigger] s[i]).len() == 0,
    ensures
        s.flatten().len() == 0,
    decreases s.len(),
{
    if s.len() > 0 {
        lemma_flatten_empties(s.drop_first());
    }
}

/// A query that reports no match in any repository makes the whole batch fail;
/// it prints nothing itself, and the other queries print what they would print
/// without it in the batch.
pub proof fn lemma_unmatched_query(
    qs: Seq<Seq<char>>,
    regex: bool,
    quiet: bool,
    repos: Seq<Seq<char>>,
    installed: Map<Seq<char>, Seq<char>>,
    ms: Seq<Seq<Seq<Seq<char>>>>,
    k: int,
)
    requires
        0 <= k < qs.len(),
        ms.len() == qs.len(),
        !query_found(qs[k], regex, quiet, repos, installed, ms[k]),
    ensures
        !batch_success(qs, regex, quiet, repos, installed, ms),
        query_output(qs[k], regex, quiet, repos, installed, ms[k]).len() == 0,
        batch_output(qs, regex, quiet, repos, installed, ms) == batch_output(
            qs.remove(k),
            regex,
            quiet,
            repos,
            installed,
            ms.remove(k),
        ),
{
    let per_repo = Seq::new(
        repos.len(),
        |r: int| grouped(query_config(qs[k], regex, quiet, repos[r], installed), ms[k][r]).1,
    );
    assert forall|r: int| 0 <= r < per_repo.len() implies (#[trigger] per_repo[r]).len() == 0 by {
        let cfg = query_config(qs[k], regex, quiet, repos[r], installed);
        lemma_unfound_prints_nothing(cfg, ms[k][r]);
    }
    lemma_flatten_empties(per_repo);
    let s = Seq::new(qs.len(), |q: int| query_output(qs[q], regex, quiet, repos, installed, ms[q]));
    let qs2 = qs.remove(k);
    let ms2 = ms.remove(k);
    let t = Seq::new(
        qs2.len(),
        |q: int| query_output(qs2[q], regex, quiet, repos, installed, ms2[q]),
    );
    assert(s =~= s.take(k) + (seq![s[k]] + s.skip(k + 1)));
    assert(t =~= s.take(k) + s.skip(k + 1));
    lemma_flatten_concat(s.take(k), seq![s[k]] + s.skip(k + 1));
    lemma_flatten_concat(seq![s[k]], s.skip(k + 1));
    lemma_flatten_concat(s.take(k), s.skip(k + 1));
    assert(seq![s[k]].flatten() =~= s[k]) by {
        seq![s[k]].lemma_flatten_singleton();
    }
    assert(s.flatten() =~= t.flatten());
}

} // verus!
