//! Building a repository's index: the freshness rule, the Index Lines of each
//! manifest, and the decisions of a build as a state machine that the caller
//! drives (it performs each action and hands back what came of it).
use vstd::prelude::*;
use crate::manifest::{
    extract_step, file_paths, initial_extractor, listed_paths, ArchiveEvent, ExtractError,
    Extracted, ExtractedView, ExtractorView, ManifestExtractor,
};
use crate::package_file::index_line;
use crate::text::views;

verus! {

/// An index whose modification time is after its archive's is fresh.
pub open spec fn index_is_fresh(index_mtime: i128, archive_mtime: i128) -> bool {
    index_mtime > archive_mtime
}

/// The relational index of a repository is fresh when it recorded a
/// modification time no older than the archive's.
pub open spec fn recorded_fresh(archive_mtime: u64, recorded: Option<u64>) -> bool {
    match recorded {
        Some(m) => archive_mtime <= m,
        None => false,
    }
}

/// What the relational backend does for one repository.
#[derive(Clone, Copy, Debug, PartialEq, Eq, Structural)]
pub enum ConversionPlan {
    /// The recorded conversion is up to date: rows and record stay as they are.
    Fresh,
    /// Replace the repository's rows in one transaction, then record `mtime`,
    /// updating the existing record or inserting a new one.
    Convert { mtime: u64, update_record: bool },
}

/// The plan for an archive of modification time `archive_mtime`, given the
/// time recorded at the last conversion, if any.
pub open spec fn conversion_plan(archive_mtime: u64, recorded: Option<u64>) -> ConversionPlan {
    if recorded_fresh(archive_mtime, recorded) {
        ConversionPlan::Fresh
    } else {
        ConversionPlan::Convert { mtime: archive_mtime, update_record: recorded is Some }
    }
}

/// The time recorded after a plan was carried out successfully.
pub open spec fn recorded_after(plan: ConversionPlan, recorded: Option<u64>) -> Option<u64> {
    match plan {
        ConversionPlan::Fresh => recorded,
        ConversionPlan::Convert { mtime, .. } => Some(mtime),
    }
}

pub fn plan_conversion(archive_mtime: u64, recorded: Option<u64>) -> (r: ConversionPlan)
    ensures
        r == conversion_plan(archive_mtime, recorded),
{
    match recorded {
        Some(m) => if archive_mtime <= m {
            ConversionPlan::Fresh
        } else {
            ConversionPlan::Convert { mtime: archive_mtime, update_record: true }
        },
        None => ConversionPlan::Convert { mtime: archive_mtime, update_record: false },
    }
}

/// Converting a repository twice, with its archive unchanged in between: once
/// the first conversion has recorded its time, the second finds it fresh and
/// changes nothing.
pub proof fn lemma_second_conversion_is_fresh(archive_mtime: u64, recorded: Option<u64>)
    ensures
        conversion_plan(
            archive_mtime,
            recorded_after(conversion_plan(archive_mtime, recorded), recorded),
        ) == ConversionPlan::Fresh,
{
}

/// A repository without a recorded conversion (as after its record was
/// deleted to force a rebuild) is converted, whatever its archive's time, and
/// then records that time.
pub proof fn lemma_unrecorded_repo_converts(archive_mtime: u64)
    ensures
        conversion_plan(archive_mtime, None) == (ConversionPlan::Convert {
            mtime: archive_mtime,
            update_record: false,
        }),
        recorded_after(conversion_plan(archive_mtime, None), None) == Some(archive_mtime),
{
}

/// The Index Lines of a manifest: one per listed path, under the package's directory.
pub open spec fn manifest_lines(dir: Seq<char>, files: Seq<char>) -> Seq<Seq<char>> {
    listed_paths(files).map_values(|p: Seq<char>| index_line(dir, p))
}

/// The Index Lines of the files listed in `files`, under directory `dir`.
pub fn index_lines(dir: &str, files: &str) -> (r: Vec<String>)
    ensures
        views(r@) == manifest_lines(dir@, files@),
{
    let paths = file_paths(files);
    let mut out: Vec<String> = Vec::new();
    let mut i: usize = 0;
    while i < paths.len()
        invariant
            i <= paths@.len(),
            views(paths@) == listed_paths(files@),
            views(out@) == views(paths@).take(i as int).map_values(
                |p: Seq<char>| index_line(dir@, p),
            ),
        decreases paths@.len() - i,
    {
        let mut line = String::from_str(dir);
        proof {
            reveal_strlit("/");
        }
        line.append("/");
        line.append(paths[i].as_str());
        assert("/"@ =~= seq!['/']);
        assert(line@ == index_line(dir@, views(paths@)[i as int]));
        let ghost before = views(out@);
        out.push(line);
        assert(views(out@) =~= before.push(index_line(dir@, views(paths@)[i as int])));
        assert(views(paths@).take(i + 1).map_values(|p: Seq<char>| index_line(dir@, p))
            =~= views(paths@).take(i as int).map_values(|p: Seq<char>| index_line(dir@, p)).push(
            index_line(dir@, views(paths@)[i as int]),
        ));
        i = i + 1;
    }
    assert(views(paths@).take(i as int) =~= views(paths@));
    out
}

/// Where a build stands.
#[derive(Clone, Copy, PartialEq, Eq, Structural)]
pub enum BuildStage {
    /// Waiting for the index's modification time.
    CheckIndex,
    /// Waiting for the archive's modification time; the index has this one.
    CheckArchive(i128),
    /// Reading the archive.
    Scanning,
    /// Waiting for the index compiler.
    Compiling,
    /// Waiting for the index's permissions to be set.
    SettingMode,
    Done,
}

/// What came of the last action.
pub enum BuildEvent {
    /// The index's modification time, or `None` if there is no index.
    IndexStat(Option<i128>),
    /// The archive's modification time.
    ArchiveStat(i128),
    /// The next event of the archive.
    Archive(ArchiveEvent),
    /// The archive has no more events.
    ArchiveEnd,
    /// The index compiler exited, successfully or not.
    CompilerExit(bool),
    /// The index's permissions were set.
    ModeSet,
}

/// Why a build failed.
pub enum BuildError {
    Extract(ExtractError),
    /// The index compiler exited with an error.
    Compiler,
    /// An event came that the build was not waiting for.
    OutOfOrder,
}

pub enum BuildOutcome {
    /// The index was fresh: nothing was written.
    Fresh,
    /// The index was built.
    Built,
    Failed(BuildError),
}

/// What the caller does next.
pub enum BuildAction {
    /// Read the index's modification time.
    StatIndex,
    /// Read the archive's modification time.
    StatArchive,
    /// Read the next archive event.
    ReadArchive,
    /// Append these Index Lines to the scratch file, then read on.
    Write(Vec<String>),
    /// Report that this package's file list is not UTF-8, then read on.
    SkipPackage(String),
    /// Run the index compiler on the scratch file.
    RunCompiler,
    /// Make the index world-readable and owner-writable.
    SetMode,
    /// The build is over.
    Finish(BuildOutcome),
}

/// The kind of an action, without its data.
pub enum Step {
    StatIndex,
    StatArchive,
    ReadArchive,
    Write,
    SkipPackage,
    RunCompiler,
    SetMode,
    Fresh,
    Built,
    Failed,
}

impl BuildAction {
    pub open spec fn step(&self) -> Step {
        match self {
            BuildAction::StatIndex => Step::StatIndex,
            BuildAction::StatArchive => Step::StatArchive,
            BuildAction::ReadArchive => Step::ReadArchive,
            BuildAction::Write(_) => Step::Write,
            BuildAction::SkipPackage(_) => Step::SkipPackage,
            BuildAction::RunCompiler => Step::RunCompiler,
            BuildAction::SetMode => Step::SetMode,
            BuildAction::Finish(BuildOutcome::Fresh) => Step::Fresh,
            BuildAction::Finish(BuildOutcome::Built) => Step::Built,
            BuildAction::Finish(BuildOutcome::Failed(_)) => Step::Failed,
        }
    }
}

/// The stage a build starts in: a forced build reads the archive at once.
pub open spec fn initial_stage(force: bool) -> BuildStage {
    if force {
        BuildStage::Scanning
    } else {
        BuildStage::CheckIndex
    }
}

/// The first action of a build.
pub open spec fn initial_step(force: bool) -> Step {
    if force {
        Step::ReadArchive
    } else {
        Step::StatIndex
    }
}

/// The transition on an event other than an archive event read while scanning.
pub open spec fn control_step(stage: BuildStage, ev: BuildEvent) -> (BuildStage, Step) {
    match (stage, ev) {
        (BuildStage::CheckIndex, BuildEvent::IndexStat(None)) => (
            BuildStage::Scanning,
            Step::ReadArchive,
        ),
        (BuildStage::CheckIndex, BuildEvent::IndexStat(Some(m))) => (
            BuildStage::CheckArchive(m),
            Step::StatArchive,
        ),
        (BuildStage::CheckArchive(m), BuildEvent::ArchiveStat(a)) => if index_is_fresh(m, a) {
            (BuildStage::Done, Step::Fresh)
        } else {
            (BuildStage::Scanning, Step::ReadArchive)
        },
        (BuildStage::Scanning, BuildEvent::ArchiveEnd) => (BuildStage::Compiling, Step::RunCompiler),
        (BuildStage::Compiling, BuildEvent::CompilerExit(ok)) => if ok {
            (BuildStage::SettingMode, Step::SetMode)
        } else {
            (BuildStage::Done, Step::Failed)
        },
        (BuildStage::SettingMode, BuildEvent::ModeSet) => (BuildStage::Done, Step::Built),
        _ => (BuildStage::Done, Step::Failed),
    }
}

/// The event is an archive event arriving while the archive is read.
pub open spec fn is_scan_event(stage: BuildStage, ev: BuildEvent) -> bool {
    stage == BuildStage::Scanning && ev is Archive
}

/// The stages and actions of a build driven by events that are not archive
/// events, one after the other.
pub open spec fn run(stage: BuildStage, evs: Seq<BuildEvent>) -> (BuildStage, Seq<Step>)
    decreases evs.len(),
{
    if evs.len() == 0 {
        (stage, Seq::empty())
    } else {
        let (next, step) = control_step(stage, evs[0]);
        let (end, steps) = run(next, evs.drop_first());
        (end, seq![step] + steps)
    }
}

/// A build without `force` of an index that is newer than its archive (as one
/// is after a build, while the archive has not changed since) asks for the two
/// modification times and finishes as fresh: it writes no line and never runs
/// the index compiler.
pub proof fn lemma_unchanged_archive_is_fresh(index_mtime: i128, archive_mtime: i128)
    requires
        index_is_fresh(index_mtime, archive_mtime),
    ensures
        initial_step(false) == Step::StatIndex,
        run(
            initial_stage(false),
            seq![BuildEvent::IndexStat(Some(index_mtime)), BuildEvent::ArchiveStat(archive_mtime)],
        ) == (BuildStage::Done, seq![Step::StatArchive, Step::Fresh]),
{
    let evs = seq![BuildEvent::IndexStat(Some(index_mtime)), BuildEvent::ArchiveStat(archive_mtime)];
    let rest = evs.drop_first();
    assert(rest =~= seq![BuildEvent::ArchiveStat(archive_mtime)]);
    assert(rest.drop_first() =~= Seq::<BuildEvent>::empty());
    assert(control_step(BuildStage::CheckIndex, evs[0]) == (
        BuildStage::CheckArchive(index_mtime),
        Step::StatArchive,
    ));
    assert(control_step(BuildStage::CheckArchive(index_mtime), rest[0]) == (
        BuildStage::Done,
        Step::Fresh,
    ));
    assert(run(BuildStage::Done, rest.drop_first()) == (BuildStage::Done, Seq::<Step>::empty()));
    assert(run(BuildStage::CheckArchive(index_mtime), rest).1 =~= seq![Step::Fresh]);
    assert(run(BuildStage::CheckIndex, evs).1 =~= seq![Step::StatArchive, Step::Fresh]);
}

/// A forced build consults no modification time: it starts by reading the
/// archive, and the end of the archive always leads to running the compiler.
pub proof fn lemma_forced_build_compiles()
    ensures
        initial_stage(true) == BuildStage::Scanning,
        initial_step(true) == Step::ReadArchive,
        control_step(initial_stage(true), BuildEvent::ArchiveEnd) == (
            BuildStage::Compiling,
            Step::RunCompiler,
        ),
{
}

/// The action for what an archive event yielded while scanning: read on; write
/// the Index Lines of a manifest; report a skipped package; or stop on an
/// extraction error.
pub open spec fn scan_action(out: ExtractedView, r: BuildAction) -> bool {
    match out {
        ExtractedView::Pending => r is ReadArchive,
        ExtractedView::Manifest { dir, files, .. } => match r {
            BuildAction::Write(ls) => views(ls@) == manifest_lines(dir, files),
            _ => false,
        },
        ExtractedView::SkippedFiles { pkgname } => match r {
            BuildAction::SkipPackage(p) => p@ == pkgname,
            _ => false,
        },
        ExtractedView::Failed(e) => match r {
            BuildAction::Finish(BuildOutcome::Failed(BuildError::Extract(x))) => x@ == e,
            _ => false,
        },
    }
}

/// The stage after an archive event: scanning goes on unless extraction stopped.
pub open spec fn scan_stage(out: ExtractedView) -> BuildStage {
    if out is Failed {
        BuildStage::Done
    } else {
        BuildStage::Scanning
    }
}

/// The decisions of one repository's index build.
pub struct RepoBuild {
    stage: BuildStage,
    extractor: ManifestExtractor,
}

impl RepoBuild {
    pub closed spec fn stage(&self) -> BuildStage {
        self.stage
    }

    /// The state of the extraction of the archive's manifests.
    pub closed spec fn extractor(&self) -> ExtractorView {
        self.extractor@
    }

    /// Starts a build; returns it with its first action.
    pub fn new(force: bool) -> (r: (RepoBuild, BuildAction))
        ensures
            r.0.stage() == initial_stage(force),
            r.0.extractor() == initial_extractor(),
            r.1.step() == initial_step(force),
    {
        let stage = if force {
            BuildStage::Scanning
        } else {
            BuildStage::CheckIndex
        };
        let action = if force {
            BuildAction::ReadArchive
        } else {
            BuildAction::StatIndex
        };
        (RepoBuild { stage, extractor: ManifestExtractor::new() }, action)
    }

    /// Consumes what came of the last action; returns the next action.
    pub fn step(&mut self, ev: BuildEvent) -> (r: BuildAction)
        ensures
            !is_scan_event(old(self).stage(), ev) ==> (final(self).stage(), r.step())
                == control_step(old(self).stage(), ev),
            !is_scan_event(old(self).stage(), ev) ==> final(self).extractor() == old(
                self,
            ).extractor(),
            match ev {
                BuildEvent::Archive(e) => old(self).stage() == BuildStage::Scanning ==> ({
                    let (next, out) = extract_step(old(self).extractor(), e);
                    &&& final(self).extractor() == next
                    &&& final(self).stage() == scan_stage(out)
                    &&& scan_action(out, r)
                }),
                _ => true,
            },
            ev == BuildEvent::CompilerExit(false) && old(self).stage() == BuildStage::Compiling
                ==> r == BuildAction::Finish(BuildOutcome::Failed(BuildError::Compiler)),
    {
        let stage = self.stage;
        match (stage, ev) {
            (BuildStage::CheckIndex, BuildEvent::IndexStat(None)) => {
                self.stage = BuildStage::Scanning;
                BuildAction::ReadArchive
            },
            (BuildStage::CheckIndex, BuildEvent::IndexStat(Some(m))) => {
                self.stage = BuildStage::CheckArchive(m);
                BuildAction::StatArchive
            },
            (BuildStage::CheckArchive(m), BuildEvent::ArchiveStat(a)) => {
                if m > a {
                    self.stage = BuildStage::Done;
                    BuildAction::Finish(BuildOutcome::Fresh)
                } else {
                    self.stage = BuildStage::Scanning;
                    BuildAction::ReadArchive
                }
            },
            (BuildStage::Scanning, BuildEvent::Archive(e)) => {
                match self.extractor.step(e) {
                    Extracted::Pending => BuildAction::ReadArchive,
                    Extracted::Manifest { dir, pkgname: _, files } => BuildAction::Write(
                        index_lines(dir.as_str(), files.as_str()),
                    ),
                    Extracted::SkippedFiles { pkgname } => BuildAction::SkipPackage(pkgname),
                    Extracted::Failed(err) => {
                        self.stage = BuildStage::Done;
                        BuildAction::Finish(BuildOutcome::Failed(BuildError::Extract(err)))
                    },
                }
            },
            (BuildStage::Scanning, BuildEvent::ArchiveEnd) => {
                self.stage = BuildStage::Compiling;
                BuildAction::RunCompiler
            },
            (BuildStage::Compiling, BuildEvent::CompilerExit(ok)) => {
                if ok {
                    self.stage = BuildStage::SettingMode;
                    BuildAction::SetMode
                } else {
                    self.stage = BuildStage::Done;
                    BuildAction::Finish(BuildOutcome::Failed(BuildError::Compiler))
                }
            },
            (BuildStage::SettingMode, BuildEvent::ModeSet) => {
                self.stage = BuildStage::Done;
                BuildAction::Finish(BuildOutcome::Built)
            },
            _ => {
                self.stage = BuildStage::Done;
                BuildAction::Finish(BuildOutcome::Failed(BuildError::OutOfOrder))
            },
        }
    }
}

} // verus!
