use pacfiles::installed::InstalledPackages;
use pacfiles::package_file::PackageFile;
use pacfiles::query::{group_matches, plan_query, query_files, Annotation, OutputLine};
use pacfiles::render::render_line;

fn pf(line: &str) -> PackageFile {
    PackageFile::new(String::from(line))
}

fn no_installed() -> InstalledPackages {
    InstalledPackages::new(&Vec::new())
}

fn texts(lines: &[OutputLine]) -> Vec<String> {
    lines.iter().map(render_line).collect()
}

#[test]
fn literal_query_brackets_its_first_character() {
    let plan = plan_query("vim", false);
    assert_eq!(plan.pattern, "[v]im");
    assert!(!plan.regex);
    assert!(plan.basename);
    assert_eq!(plan.validating_path, None);
}

#[test]
fn literal_query_of_one_character() {
    let plan = plan_query("ü", false);
    assert_eq!(plan.pattern, "[ü]");
}

#[test]
fn glob_query_is_passed_through() {
    let plan = plan_query("libc*.so", false);
    assert_eq!(plan.pattern, "libc*.so");
    assert!(plan.basename);
    assert_eq!(plan.validating_path, None);
    assert_eq!(plan_query("a?c", false).pattern, "a?c");
    assert_eq!(plan_query("[ab]c", false).pattern, "[ab]c");
}

#[test]
fn full_path_query_is_anchored_and_validated() {
    let plan = plan_query("/usr/bin/vi", false);
    assert_eq!(plan.pattern, "*/usr/bin/vi");
    assert!(!plan.basename);
    assert_eq!(plan.validating_path, Some(String::from("usr/bin/vi")));
    let plan = plan_query("bin/vi", false);
    assert_eq!(plan.pattern, "*/bin/vi");
    assert_eq!(plan.validating_path, Some(String::from("bin/vi")));
}

#[test]
fn regex_query_is_unchanged() {
    let plan = plan_query("^vi.*$", true);
    assert_eq!(plan.pattern, "^vi.*$");
    assert!(plan.regex);
    assert!(plan.basename);
    assert_eq!(plan.validating_path, None);
    let plan = plan_query("usr/bin/v.", true);
    assert_eq!(plan.pattern, "usr/bin/v.");
    assert!(!plan.basename);
    assert_eq!(plan.validating_path, None);
}

#[test]
fn quiet_mode_reports_each_package_once() {
    let matches = vec![
        pf("vim-9.1-1/usr/bin/vim"),
        pf("vim-9.1-1/usr/bin/vimdiff"),
        pf("vim-9.1-1/usr/bin/vimtutor"),
        pf("gvim-9.1-1/usr/bin/gvim"),
    ];
    let (lines, found) = group_matches("extra", true, &None, &no_installed(), &matches);
    assert!(found);
    assert_eq!(texts(&lines), vec!["extra/vim", "extra/gvim"]);
}

#[test]
fn full_path_query_keeps_only_the_exact_path() {
    let plan = plan_query("/usr/bin/vi", false);
    let matches = vec![pf("vi-1:070224-6/usr/bin/vi"), pf("vim-9.1-1/usr/bin/vim")];
    let (lines, found) =
        group_matches("core", false, &plan.validating_path, &no_installed(), &matches);
    assert!(found);
    assert_eq!(lines.len(), 1);
    match &lines[0] {
        OutputLine::OwnedBy { path, pkgname, version, repo } => {
            assert_eq!(path, "usr/bin/vi");
            assert_eq!(pkgname, "vi");
            assert_eq!(version, "1:070224-6");
            assert_eq!(repo, "core");
        }
        _ => panic!("expected an ownership line"),
    }
    assert_eq!(
        render_line(&lines[0]),
        "usr/bin/vi is owned by \x1b[1;35mcore/\x1b[0m\x1b[1mvi\x1b[0m \x1b[1;32m1:070224-6\x1b[0m"
    );
}

#[test]
fn rejected_candidate_does_not_break_grouping() {
    let validating = Some(String::from("usr/bin/vi"));
    let matches = vec![pf("vim-9.1-1/usr/bin/vim"), pf("vim-9.1-1/usr/bin/vi")];
    let (lines, found) = group_matches("extra", true, &validating, &no_installed(), &matches);
    assert!(found);
    assert_eq!(texts(&lines), vec!["extra/vim"]);
}

#[test]
fn installed_version_annotations() {
    let matches = vec![pf("foo-1.0-1/usr/bin/foo")];
    let same = InstalledPackages::new(&vec![String::from("foo-1.0-1")]);
    let (lines, _) = group_matches("extra", false, &None, &same, &matches);
    assert!(matches!(&lines[0], OutputLine::Header { installed: Annotation::Installed, .. }));
    assert!(render_line(&lines[0]).ends_with(" \x1b[1;36m[installed]\x1b[0m"));

    let other = InstalledPackages::new(&vec![String::from("foo-2.0-1")]);
    let (lines, _) = group_matches("extra", false, &None, &other, &matches);
    match &lines[0] {
        OutputLine::Header { installed: Annotation::InstalledOther(v), .. } => assert_eq!(v, "2.0-1"),
        _ => panic!("expected a header with another installed version"),
    }
    assert!(render_line(&lines[0]).ends_with(" \x1b[1;36m[installed: 2.0-1]\x1b[0m"));

    let (lines, _) = group_matches("extra", false, &None, &no_installed(), &matches);
    assert!(matches!(&lines[0], OutputLine::Header { installed: Annotation::NotInstalled, .. }));
    assert_eq!(
        render_line(&lines[0]),
        "\x1b[1;35mextra/\x1b[0m\x1b[1mfoo\x1b[0m \x1b[1;32m1.0-1\x1b[0m"
    );
}

#[test]
fn verbose_mode_groups_paths_under_one_header() {
    let matches = vec![
        pf("vim-9.1-1/usr/bin/vim"),
        pf("vim-9.1-1/usr/bin/vimdiff"),
        pf("xxd-9.1-1/usr/bin/xxd"),
    ];
    let (lines, found) = group_matches("extra", false, &None, &no_installed(), &matches);
    assert!(found);
    assert_eq!(
        texts(&lines),
        vec![
            "\x1b[1;35mextra/\x1b[0m\x1b[1mvim\x1b[0m \x1b[1;32m9.1-1\x1b[0m",
            "    usr/bin/vim",
            "    usr/bin/vimdiff",
            "\x1b[1;35mextra/\x1b[0m\x1b[1mxxd\x1b[0m \x1b[1;32m9.1-1\x1b[0m",
            "    usr/bin/xxd",
        ]
    );
}

#[test]
fn no_matches_found_nothing() {
    let (lines, found) = group_matches("core", false, &None, &no_installed(), &Vec::new());
    assert!(!found);
    assert!(lines.is_empty());
}

#[test]
fn unmatched_query_fails_the_batch_but_others_print() {
    let queries = vec![String::from("vi"), String::from("nothing-here")];
    let repos = vec![String::from("core"), String::from("extra")];
    let matches = vec![
        vec![vec![pf("vi-1:070224-6/usr/bin/vi")], vec![]],
        vec![vec![], vec![]],
    ];
    let (lines, success) =
        query_files(&queries, false, true, &repos, &no_installed(), &matches);
    assert!(!success);
    assert_eq!(texts(&lines), vec!["core/vi"]);
}

#[test]
fn batch_succeeds_when_every_query_matches() {
    let queries = vec![String::from("vi"), String::from("vim")];
    let repos = vec![String::from("core"), String::from("extra")];
    let matches = vec![
        vec![vec![pf("vi-1:070224-6/usr/bin/vi")], vec![]],
        vec![vec![], vec![pf("vim-9.1-1/usr/bin/vim")]],
    ];
    let (lines, success) =
        query_files(&queries, false, true, &repos, &no_installed(), &matches);
    assert!(success);
    assert_eq!(texts(&lines), vec!["core/vi", "extra/vim"]);
}

#[test]
fn empty_batch_succeeds() {
    let (lines, success) =
        query_files(&Vec::new(), false, false, &Vec::new(), &no_installed(), &Vec::new());
    assert!(success);
    assert!(lines.is_empty());
}
