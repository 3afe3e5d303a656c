use pacfiles::builder::{index_lines, BuildAction, BuildError, BuildEvent, BuildOutcome, RepoBuild};
use pacfiles::manifest::{
    file_paths, package_name, ArchiveEvent, ExtractError, Extracted, ManifestExtractor,
};

fn start(name: &str) -> ArchiveEvent {
    ArchiveEvent::EntryStart(String::from(name))
}

fn chunk(bytes: &[u8]) -> ArchiveEvent {
    ArchiveEvent::DataChunk(bytes.to_vec())
}

#[test]
fn file_list_skips_header_and_stops_at_empty_line() {
    assert_eq!(file_paths("%FILES%\nusr/bin/vi\netc/foo\n\n"), vec!["usr/bin/vi", "etc/foo"]);
}

#[test]
fn file_list_edge_cases() {
    assert!(file_paths("").is_empty());
    assert!(file_paths("%FILES%").is_empty());
    assert!(file_paths("%FILES%\n").is_empty());
    assert_eq!(file_paths("%FILES%\na\n\nb\n"), vec!["a"]);
    assert_eq!(file_paths("%FILES%\na\nb"), vec!["a", "b"]);
}

#[test]
fn index_lines_put_the_directory_before_each_path() {
    assert_eq!(
        index_lines("vi-1:070224-6", "%FILES%\nusr/bin/vi\netc/foo\n\n"),
        vec!["vi-1:070224-6/usr/bin/vi", "vi-1:070224-6/etc/foo"]
    );
}

#[test]
fn package_name_follows_the_marker() {
    assert_eq!(package_name("%FILENAME%\nvi.pkg\n\n%NAME%\nvi\n\n%VERSION%\n1-1\n"), Some(String::from("vi")));
    assert_eq!(package_name("%NAME%\n"), None);
    assert_eq!(package_name("%NAME%\n\n"), Some(String::from("")));
    assert_eq!(package_name("%VERSION%\n1\n%NAME%\nvi"), Some(String::from("vi")));
    assert_eq!(package_name("%NAME%"), None);
    assert_eq!(package_name("%VERSION%\n1-1\n"), None);
    assert_eq!(package_name(" %NAME%\nvi\n"), None);
}

#[test]
fn extractor_pairs_name_with_file_list() {
    let mut ex = ManifestExtractor::new();
    assert!(matches!(ex.step(start("vi-1-1/")), Extracted::Pending));
    assert!(matches!(ex.step(ArchiveEvent::EntryEnd), Extracted::Pending));
    assert!(matches!(ex.step(start("vi-1-1/desc")), Extracted::Pending));
    assert!(matches!(ex.step(chunk(b"%NAME%\n")), Extracted::Pending));
    assert!(matches!(ex.step(chunk(b"vi\n")), Extracted::Pending));
    assert!(matches!(ex.step(ArchiveEvent::EntryEnd), Extracted::Pending));
    ex.step(start("vi-1-1/files"));
    ex.step(chunk(b"%FILES%\nusr/"));
    ex.step(chunk(b"bin/vi\n"));
    match ex.step(ArchiveEvent::EntryEnd) {
        Extracted::Manifest { dir, pkgname, files } => {
            assert_eq!(dir, "vi-1-1");
            assert_eq!(pkgname, "vi");
            assert_eq!(files, "%FILES%\nusr/bin/vi\n");
        }
        _ => panic!("expected a manifest"),
    }
}

#[test]
fn extractor_ignores_other_entries() {
    let mut ex = ManifestExtractor::new();
    ex.step(start("vi-1-1/mtree"));
    ex.step(chunk(&[0xff, 0xfe]));
    assert!(matches!(ex.step(ArchiveEvent::EntryEnd), Extracted::Pending));
}

#[test]
fn extractor_reports_non_utf8_metadata() {
    let mut ex = ManifestExtractor::new();
    ex.step(start("vi-1-1/desc"));
    ex.step(chunk(&[b'%', 0xff]));
    match ex.step(ArchiveEvent::EntryEnd) {
        Extracted::Failed(ExtractError::NotUtf8 { entry }) => assert_eq!(entry, "vi-1-1/desc"),
        _ => panic!("expected an encoding error"),
    }
}

#[test]
fn extractor_reports_malformed_metadata() {
    let mut ex = ManifestExtractor::new();
    ex.step(start("vi-1-1/desc"));
    ex.step(chunk(b"%VERSION%\n1-1\n"));
    match ex.step(ArchiveEvent::EntryEnd) {
        Extracted::Failed(ExtractError::Malformed { entry }) => assert_eq!(entry, "vi-1-1/desc"),
        _ => panic!("expected a malformed-metadata error"),
    }
}

#[test]
fn extractor_skips_non_utf8_file_list() {
    let mut ex = ManifestExtractor::new();
    ex.step(start("vi-1-1/desc"));
    ex.step(chunk(b"%NAME%\nvi\n"));
    ex.step(ArchiveEvent::EntryEnd);
    ex.step(start("vi-1-1/files"));
    ex.step(chunk(&[0xc3, 0x28]));
    match ex.step(ArchiveEvent::EntryEnd) {
        Extracted::SkippedFiles { pkgname } => assert_eq!(pkgname, "vi"),
        _ => panic!("expected the file list to be skipped"),
    }
}

#[test]
fn extractor_reports_archive_errors() {
    let mut ex = ManifestExtractor::new();
    match ex.step(ArchiveEvent::Error(String::from("truncated"))) {
        Extracted::Failed(ExtractError::Archive { cause }) => assert_eq!(cause, "truncated"),
        _ => panic!("expected an archive error"),
    }
}

#[test]
fn build_of_fresh_index_is_a_no_op() {
    let (mut b, first) = RepoBuild::new(false);
    assert!(matches!(first, BuildAction::StatIndex));
    assert!(matches!(b.step(BuildEvent::IndexStat(Some(200))), BuildAction::StatArchive));
    assert!(matches!(b.step(BuildEvent::ArchiveStat(100)), BuildAction::Finish(BuildOutcome::Fresh)));
}

#[test]
fn build_of_stale_or_missing_index_reads_the_archive() {
    let (mut b, _) = RepoBuild::new(false);
    b.step(BuildEvent::IndexStat(Some(100)));
    assert!(matches!(b.step(BuildEvent::ArchiveStat(100)), BuildAction::ReadArchive));
    let (mut b, _) = RepoBuild::new(false);
    assert!(matches!(b.step(BuildEvent::IndexStat(None)), BuildAction::ReadArchive));
}

#[test]
fn forced_build_runs_the_compiler() {
    let (mut b, first) = RepoBuild::new(true);
    assert!(matches!(first, BuildAction::ReadArchive));
    assert!(matches!(b.step(BuildEvent::Archive(start("vi-1-1/desc"))), BuildAction::ReadArchive));
    b.step(BuildEvent::Archive(chunk(b"%NAME%\nvi\n")));
    assert!(matches!(b.step(BuildEvent::Archive(ArchiveEvent::EntryEnd)), BuildAction::ReadArchive));
    b.step(BuildEvent::Archive(start("vi-1-1/files")));
    b.step(BuildEvent::Archive(chunk(b"%FILES%\nusr/bin/vi\n\n")));
    match b.step(BuildEvent::Archive(ArchiveEvent::EntryEnd)) {
        BuildAction::Write(lines) => assert_eq!(lines, vec!["vi-1-1/usr/bin/vi"]),
        _ => panic!("expected lines to write"),
    }
    assert!(matches!(b.step(BuildEvent::ArchiveEnd), BuildAction::RunCompiler));
    assert!(matches!(b.step(BuildEvent::CompilerExit(true)), BuildAction::SetMode));
    assert!(matches!(b.step(BuildEvent::ModeSet), BuildAction::Finish(BuildOutcome::Built)));
}

#[test]
fn compiler_failure_fails_the_build() {
    let (mut b, _) = RepoBuild::new(true);
    b.step(BuildEvent::ArchiveEnd);
    assert!(matches!(
        b.step(BuildEvent::CompilerExit(false)),
        BuildAction::Finish(BuildOutcome::Failed(BuildError::Compiler))
    ));
}

#[test]
fn build_reports_skipped_packages_and_archive_errors() {
    let (mut b, _) = RepoBuild::new(true);
    b.step(BuildEvent::Archive(start("vi-1-1/files")));
    b.step(BuildEvent::Archive(chunk(&[0xff])));
    assert!(matches!(b.step(BuildEvent::Archive(ArchiveEvent::EntryEnd)), BuildAction::SkipPackage(_)));
    assert!(matches!(
        b.step(BuildEvent::Archive(ArchiveEvent::Error(String::from("bad")))),
        BuildAction::Finish(BuildOutcome::Failed(BuildError::Extract(ExtractError::Archive { .. })))
    ));
}

#[test]
fn out_of_order_event_fails_the_build() {
    let (mut b, _) = RepoBuild::new(false);
    assert!(matches!(
        b.step(BuildEvent::ModeSet),
        BuildAction::Finish(BuildOutcome::Failed(BuildError::OutOfOrder))
    ));
}
