use pacfiles::installed::InstalledPackages;
use pacfiles::package_file::PackageFile;

#[test]
fn test_package_file() {
    let pf = PackageFile::new(String::from("vi-1:070224-6/usr/bin/vi"));
    assert_eq!(pf.pkgname(), "vi");
    assert_eq!(pf.version(), "1:070224-6");
    assert_eq!(pf.path(), "usr/bin/vi");
}

#[test]
fn hyphenated_name_keeps_its_hyphens() {
    let pf = PackageFile::new(String::from("python-pip-24.0-1/usr/lib/python3/pip/__init__.py"));
    assert_eq!(pf.pkgname(), "python-pip");
    assert_eq!(pf.version(), "24.0-1");
    assert_eq!(pf.path(), "usr/lib/python3/pip/__init__.py");
}

#[test]
fn decoded_parts_rebuild_the_line() {
    for line in ["vi-1:070224-6/usr/bin/vi", "a-b-c-d/e/f-g", "x-1-2/", "ü-ñ-1/ü/ä"] {
        let pf = PackageFile::new(String::from(line));
        let rebuilt = format!("{}-{}/{}", pf.pkgname(), pf.version(), pf.path());
        assert_eq!(rebuilt, line);
    }
}

#[test]
fn path_may_hold_hyphens_and_slashes() {
    let pf = PackageFile::new(String::from("gcc-14.1.1+r58-1/usr/lib/gcc/x86_64-pc-linux-gnu/14.1.1/cc1"));
    assert_eq!(pf.pkgname(), "gcc");
    assert_eq!(pf.version(), "14.1.1+r58-1");
    assert_eq!(pf.path(), "usr/lib/gcc/x86_64-pc-linux-gnu/14.1.1/cc1");
}

#[test]
fn parse_refuses_lines_that_do_not_split() {
    assert!(PackageFile::parse(String::from("no-slash-here")).is_none());
    assert!(PackageFile::parse(String::from("onehyphen-1/usr/bin/x")).is_none());
    assert!(PackageFile::parse(String::from("")).is_none());
    let pf = PackageFile::parse(String::from("vi-1-2/x")).unwrap();
    assert_eq!(pf.pkgname(), "vi");
}

#[test]
fn installed_versions_are_looked_up_by_name() {
    let dirs = vec![
        String::from("vi-1:070224-6"),
        String::from("python-pip-24.0-1"),
        String::from("bash-5.2.026-2"),
    ];
    let installed = InstalledPackages::new(&dirs);
    assert_eq!(installed.package_version("vi"), Some("1:070224-6"));
    assert_eq!(installed.package_version("python-pip"), Some("24.0-1"));
    assert_eq!(installed.package_version("bash"), Some("5.2.026-2"));
    assert_eq!(installed.package_version("python"), None);
    assert_eq!(installed.package_version(""), None);
}

#[test]
fn later_installed_directory_replaces_earlier() {
    let dirs = vec![String::from("vi-1.0-1"), String::from("vi-2.0-1")];
    let installed = InstalledPackages::new(&dirs);
    assert_eq!(installed.package_version("vi"), Some("2.0-1"));
}

#[test]
fn empty_installed_table() {
    let installed = InstalledPackages::new(&Vec::new());
    assert_eq!(installed.package_version("vi"), None);
}
