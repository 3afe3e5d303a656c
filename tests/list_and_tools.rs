use pacfiles::builder::{plan_conversion, ConversionPlan};
use pacfiles::list::{list_packages, list_target, render_list_line, ListLine};
use pacfiles::matcher::{
    archive_repo_name, index_file_name, matcher_args, matcher_failed,
    repo_names, trim_newline,
};
use pacfiles::package_file::PackageFile;

fn pf(line: &str) -> PackageFile {
    PackageFile::new(String::from(line))
}

#[test]
fn list_target_with_and_without_repo() {
    let t = list_target("core/vi");
    assert_eq!(t.repo, Some(String::from("core")));
    assert_eq!(t.pkgname, "vi");
    assert_eq!(t.pattern, "vi-*");
    let t = list_target("vi");
    assert_eq!(t.repo, None);
    assert_eq!(t.pkgname, "vi");
    assert_eq!(t.pattern, "vi-*");
}

#[test]
fn listing_keeps_only_the_named_package() {
    let packages = vec![String::from("vi"), String::from("nope")];
    let matches = vec![
        vec![vec![pf("vi-1-1/usr/bin/vi"), pf("vi-extra-1-1/usr/bin/x")], vec![pf("vi-1-1/etc/vi")]],
        vec![vec![]],
    ];
    let (lines, found) = list_packages(&packages, true, &matches);
    assert!(found);
    let texts: Vec<String> = lines.iter().map(render_list_line).collect();
    assert_eq!(
        texts,
        vec![
            "usr/bin/vi",
            "etc/vi",
            "\x1b[1;31merror:\x1b[0m package 'nope' was not found",
        ]
    );
    assert!(matches!(&lines[2], ListLine::NotFound { .. }));
}

#[test]
fn verbose_listing_names_the_package() {
    let packages = vec![String::from("core/vi")];
    let matches = vec![vec![vec![pf("vi-1-1/usr/bin/vi")]]];
    let (lines, found) = list_packages(&packages, false, &matches);
    assert!(found);
    assert_eq!(render_list_line(&lines[0]), "\x1b[1mvi\x1b[0m usr/bin/vi");
}

#[test]
fn listing_nothing_fails() {
    let packages = vec![String::from("nope")];
    let (_, found) = list_packages(&packages, false, &vec![vec![]]);
    assert!(!found);
}

#[test]
fn matcher_arguments() {
    assert_eq!(
        matcher_args("/db/core.pacfiles", "[v]i", false, true),
        vec!["-b", "-d", "/db/core.pacfiles", "-N", "--", "[v]i"]
    );
    assert_eq!(
        matcher_args("x", "a/b", true, false),
        vec!["--regex", "-d", "x", "-N", "--", "a/b"]
    );
}

#[test]
fn matcher_exit_codes() {
    assert!(!matcher_failed(Some(0)));
    assert!(!matcher_failed(Some(1)));
    assert!(matcher_failed(Some(2)));
    assert!(matcher_failed(None));
}

#[test]
fn repository_names_one_per_line() {
    assert_eq!(repo_names("core\nextra\n"), vec!["core", "extra"]);
    assert_eq!(repo_names("core\nextra"), vec!["core", "extra"]);
    assert!(repo_names("").is_empty());
}

#[test]
fn archive_and_index_names() {
    assert_eq!(archive_repo_name("core.files"), Some(String::from("core")));
    assert_eq!(archive_repo_name("core.db"), None);
    assert_eq!(archive_repo_name(".files"), None);
    assert_eq!(index_file_name("core"), "core.pacfiles");
}

#[test]
fn matcher_lines_lose_their_newline() {
    assert_eq!(trim_newline("vi-1-1/usr/bin/vi\n"), "vi-1-1/usr/bin/vi");
    assert_eq!(trim_newline("x"), "x");
    assert_eq!(trim_newline(""), "");
}

#[test]
fn conversion_plans() {
    assert_eq!(plan_conversion(10, Some(10)), ConversionPlan::Fresh);
    assert_eq!(plan_conversion(9, Some(10)), ConversionPlan::Fresh);
    assert_eq!(
        plan_conversion(11, Some(10)),
        ConversionPlan::Convert { mtime: 11, update_record: true }
    );
    assert_eq!(
        plan_conversion(0, None),
        ConversionPlan::Convert { mtime: 0, update_record: false }
    );
}

#[test]
fn conversion_then_fresh() {
    match plan_conversion(11, Some(10)) {
        ConversionPlan::Convert { mtime, .. } => {
            assert_eq!(plan_conversion(11, Some(mtime)), ConversionPlan::Fresh)
        }
        ConversionPlan::Fresh => panic!("expected a conversion"),
    }
}
