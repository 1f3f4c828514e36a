//! `bundle`: files that hold a snapshot by itself.

use vstd::prelude::*;
use crate::access::Needs;
use crate::cmd_mount;
use crate::cmd_mount::{MountOptions, MountpointStep, Place};
use crate::cmd_snapshot::{DiffCounts, SnapshotProcessSummary, SnapshotSummary};
use crate::errors;
use crate::errors::{ErrorText, MapacheError, ToExitCode};
use crate::export_walk::BlobType;
use crate::global::{Defaults, GlobalArgs};
use crate::ids::ID;
use crate::options::UseSnapshot;
use crate::report;
use crate::report::{Cell, Row};
use crate::sizes::Single;
use crate::text;

verus! {

/// Why a bundle could not be made or used.
#[derive(Debug)]
pub enum BundleError {
    /// The work itself failed.
    BundleFailed(String),
    /// An error of the file system.
    Io(String),
    /// An error of the repository.
    Repo(MapacheError),
    /// The options make no sense.
    Config(String),
}

impl ToExitCode for BundleError {
    open spec fn exit_code(&self) -> i32 {
        match self {
            BundleError::BundleFailed(_) => 20,
            BundleError::Io(_) => 1,
            BundleError::Repo(_) => 1,
            BundleError::Config(_) => 10,
        }
    }

    open spec fn message(&self) -> Seq<char> {
        match self {
            BundleError::BundleFailed(s) => "bundle failed: "@ + s@,
            BundleError::Io(s) => s@,
            BundleError::Repo(e) => e.displayed(),
            BundleError::Config(s) => "config error: "@ + s@,
        }
    }

    fn to_exit_code(&self) -> i32 {
        match self {
            BundleError::BundleFailed(_) => 20,
            BundleError::Io(_) => 1,
            BundleError::Repo(_) => 1,
            BundleError::Config(_) => 10,
        }
    }

    fn to_text(&self) -> String {
        match self {
            BundleError::BundleFailed(s) => text::join2("bundle failed: ", s.as_str()),
            BundleError::Io(s) => s.clone(),
            BundleError::Repo(e) => e.shown(),
            BundleError::Config(s) => text::join2("config error: ", s.as_str()),
        }
    }
}

/// The options of the command.
#[derive(Debug, Clone)]
pub struct CmdArgs {
    /// Create a new bundle from source paths.
    pub bundle: bool,
    /// Extract a bundle to a destination.
    pub extract: bool,
    /// Export a snapshot of the repository to a bundle file.
    pub export_snapshot: Option<UseSnapshot>,
    /// Import a bundle file as a snapshot into the repository.
    pub import: bool,
    /// Mount a bundle as a file system.
    pub mount: bool,
    /// Source paths, bundle file, or bundle and mountpoint.
    pub input: Vec<String>,
    /// Bundle file or destination directory.
    pub output: Option<String>,
    /// Patterns for paths to leave out.
    pub exclude: Vec<String>,
    /// Number of parallel readers.
    pub readers: usize,
    /// Create the mountpoint if it does not exist.
    pub create: bool,
    /// Allow other users to access the mount.
    pub allow_other: bool,
    /// Display files but do not load contents.
    pub metadata_only: bool,
    /// Size of the internal data cache in MiB.
    pub data_cache_size_mib: Single,
    /// A password that need not be asked for.
    pub internal_password: Option<String>,
}

impl CmdArgs {
    /// The options where none is given. The cache is of 256 MiB.
    pub fn with_defaults(defaults: &Defaults) -> (r: CmdArgs)
        ensures
            !r.bundle && !r.extract && r.export_snapshot is None && !r.import && !r.mount,
            r.input@.len() == 0,
            r.output is None,
            r.exclude@.len() == 0,
            r.readers == defaults.snapshot_readers,
            !r.create && !r.allow_other && !r.metadata_only,
            r.data_cache_size_mib == (Single { bits: 0x4380_0000 }),
            r.internal_password is None,
    {
        CmdArgs {
            bundle: false,
            extract: false,
            export_snapshot: None,
            import: false,
            mount: false,
            input: Vec::new(),
            output: None,
            exclude: Vec::new(),
            readers: defaults.snapshot_readers,
            create: false,
            allow_other: false,
            metadata_only: false,
            data_cache_size_mib: Single { bits: 0x4380_0000 },
            internal_password: None,
        }
    }

    /// How the command wants the repository that it exports from or imports into.
    pub fn needs(&self) -> (r: Needs)
        ensures
            r == (Needs { dry_backend: false, exclusive_lock: false }),
    {
        Needs { dry_backend: false, exclusive_lock: false }
    }
}

// ---------------------------------------------------------------------------
// What is to be done
// ---------------------------------------------------------------------------

/// What the command does.
#[derive(Debug, Copy, Clone, PartialEq, Eq, Structural)]
pub enum Mode {
    /// Exports a snapshot.
    Export,
    /// Imports bundles.
    Import,
    /// Creates a bundle.
    Create,
    /// Extracts a bundle.
    Extract,
    /// Mounts a bundle.
    Mount,
}

/// What the command is asked to do.
pub open spec fn asked(args: CmdArgs) -> Mode {
    if args.export_snapshot is Some {
        Mode::Export
    } else if args.import {
        Mode::Import
    } else if args.bundle {
        Mode::Create
    } else if args.extract {
        Mode::Extract
    } else {
        Mode::Mount
    }
}

/// What is wrong with the options, if anything is: the first thing that is found.
/// `repo` is the path of the repository.
pub open spec fn fault(args: CmdArgs, repo: Seq<char>) -> Option<Fault> {
    match asked(args) {
        Mode::Export => if args.output is None {
            Some(Fault::Config("-o is required for export mode"@))
        } else if repo.len() == 0 {
            Some(
                Fault::Config(
                    "Repository path is required for export mode. Use -r, set MAPACHE_REPOSITORY, or add it to config file."@,
                ),
            )
        } else {
            None
        },
        Mode::Import => if args.input@.len() == 0 {
            Some(Fault::Failed("import mode requires at least one bundle file as input"@))
        } else if repo.len() == 0 {
            Some(
                Fault::Config(
                    "Repository path is required for import mode. Use -r, set MAPACHE_REPOSITORY, or add it to config file."@,
                ),
            )
        } else {
            None
        },
        Mode::Create => if args.input@.len() == 0 {
            Some(Fault::Config("bundle mode requires at least one input path"@))
        } else if args.output is None {
            Some(Fault::Config("-o is required for bundle mode"@))
        } else {
            None
        },
        Mode::Extract => if args.input@.len() == 0 {
            Some(Fault::Config("extract mode requires a bundle file as input"@))
        } else if args.input@.len() != 1 {
            Some(Fault::Failed("extract mode requires exactly one bundle file as input"@))
        } else {
            None
        },
        Mode::Mount => if args.input@.len() == 0 {
            Some(Fault::Config("mount mode requires a bundle file and mountpoint"@))
        } else if args.input@.len() != 2 {
            Some(Fault::Failed("mount mode requires: bundle.mapache <mountpoint>"@))
        } else {
            None
        },
    }
}

/// What is wrong with the options, and what is said of it.
pub enum Fault {
    /// An error of the options.
    Config(Seq<char>),
    /// A failure.
    Failed(Seq<char>),
}

/// Whether an error is the one that tells of a fault.
pub open spec fn tells(e: BundleError, f: Fault) -> bool {
    match (e, f) {
        (BundleError::Config(s), Fault::Config(m)) => s@ == m,
        (BundleError::BundleFailed(s), Fault::Failed(m)) => s@ == m,
        _ => false,
    }
}

/// What the command does, or what is wrong with its options.
pub fn choose_mode(args: &CmdArgs, global: &GlobalArgs) -> (r: Result<Mode, BundleError>)
    ensures
        match fault(*args, global.repo@) {
            None => r matches Ok(m) && m == asked(*args),
            Some(f) => r matches Err(e) && tells(e, f),
        },
{
    let no_repo: bool = global.repo.as_str().is_empty();
    if args.export_snapshot.is_some() {
        if args.output.is_none() {
            return Err(BundleError::Config("-o is required for export mode".to_owned()));
        }
        if no_repo {
            return Err(
                BundleError::Config(
                    "Repository path is required for export mode. Use -r, set MAPACHE_REPOSITORY, or add it to config file.".to_owned(),
                ),
            );
        }
        Ok(Mode::Export)
    } else if args.import {
        if args.input.len() == 0 {
            return Err(
                BundleError::BundleFailed("import mode requires at least one bundle file as input".to_owned()),
            );
        }
        if no_repo {
            return Err(
                BundleError::Config(
                    "Repository path is required for import mode. Use -r, set MAPACHE_REPOSITORY, or add it to config file.".to_owned(),
                ),
            );
        }
        Ok(Mode::Import)
    } else if args.bundle {
        if args.input.len() == 0 {
            return Err(BundleError::Config("bundle mode requires at least one input path".to_owned()));
        }
        if args.output.is_none() {
            return Err(BundleError::Config("-o is required for bundle mode".to_owned()));
        }
        Ok(Mode::Create)
    } else if args.extract {
        if args.input.len() == 0 {
            return Err(BundleError::Config("extract mode requires a bundle file as input".to_owned()));
        }
        if args.input.len() != 1 {
            return Err(
                BundleError::BundleFailed("extract mode requires exactly one bundle file as input".to_owned()),
            );
        }
        Ok(Mode::Extract)
    } else {
        if args.input.len() == 0 {
            return Err(BundleError::Config("mount mode requires a bundle file and mountpoint".to_owned()));
        }
        if args.input.len() != 2 {
            return Err(BundleError::BundleFailed("mount mode requires: bundle.mapache <mountpoint>".to_owned()));
        }
        Ok(Mode::Mount)
    }
}

/// Where a bundle is extracted to: where nothing else is said, here.
pub fn destination(args: &CmdArgs) -> (r: String)
    ensures
        match args.output {
            Some(path) => r == path,
            None => r@ == "."@,
        },
{
    match &args.output {
        Some(path) => path.clone(),
        None => ".".to_owned(),
    }
}

/// Checks the mountpoint of a bundle. True where it has to be created.
pub fn mountpoint_of(args: &CmdArgs, place: Place) -> (r: Result<bool, BundleError>)
    ensures
        match cmd_mount::mountpoint_step(place, args.create) {
            MountpointStep::Ready => r matches Ok(create) && !create,
            MountpointStep::Create => r matches Ok(create) && create,
            MountpointStep::Missing => r matches Err(BundleError::BundleFailed(s)) && s@
                == "mountpoint doesn't exist. use -c to create it automatically."@,
            MountpointStep::NotADirectory => r matches Err(BundleError::BundleFailed(s)) && s@
                == "mountpoint must be a directory"@,
        },
{
    match cmd_mount::check_mountpoint(place, args.create) {
        MountpointStep::Ready => Ok(false),
        MountpointStep::Create => Ok(true),
        MountpointStep::Missing => Err(
            BundleError::BundleFailed("mountpoint doesn't exist. use -c to create it automatically.".to_owned()),
        ),
        MountpointStep::NotADirectory => Err(BundleError::BundleFailed("mountpoint must be a directory".to_owned())),
    }
}

/// What the file system of a bundle is mounted with.
pub fn mount_options(args: &CmdArgs) -> (r: MountOptions)
    ensures
        r == (MountOptions {
            allow_other: args.allow_other,
            metadata_only: args.metadata_only,
            data_cache_size: args.data_cache_size_mib.bytes(),
        }),
{
    MountOptions {
        allow_other: args.allow_other,
        metadata_only: args.metadata_only,
        data_cache_size: args.data_cache_size_mib.to_bytes(),
    }
}

// ---------------------------------------------------------------------------
// Creating
// ---------------------------------------------------------------------------

/// A path as it was given, and made absolute where that can be done.
#[derive(Debug)]
pub struct GivenPath {
    /// The path as it was given.
    pub given: String,
    /// The absolute path, if there is one.
    pub absolute: Option<String>,
}

/// The path to work with: the absolute one, or else the one that was given.
pub open spec fn worked_with(p: GivenPath) -> Seq<char> {
    match p.absolute {
        Some(abs) => abs@,
        None => p.given@,
    }
}

/// Whether a path is a pattern: whether it holds a wildcard.
pub open spec fn is_pattern(s: Seq<char>) -> bool {
    s.contains('*') || s.contains('?')
}

/// The path to leave out: a pattern as it was given, any other path made absolute.
pub open spec fn left_out(p: GivenPath) -> Seq<char> {
    if is_pattern(p.given@) {
        p.given@
    } else {
        worked_with(p)
    }
}

/// The paths to archive.
pub fn source_paths(paths: &Vec<GivenPath>) -> (r: Vec<String>)
    ensures
        text::characters(r@) == paths@.map_values(|p: GivenPath| worked_with(p)),
{
    let mut out: Vec<String> = Vec::new();
    let mut i: usize = 0;
    while i < paths.len()
        invariant
            i <= paths@.len(),
            out@.len() == i,
            forall|k: int| 0 <= k < i ==> (#[trigger] out@[k])@ == worked_with(paths@[k]),
        decreases paths@.len() - i,
    {
        match &paths[i].absolute {
            Some(abs) => out.push(abs.clone()),
            None => out.push(paths[i].given.clone()),
        }
        i = i + 1;
    }
    assert(text::characters(out@) =~= paths@.map_values(|p: GivenPath| worked_with(p)));
    out
}

/// The paths and patterns to leave out.
pub fn exclude_paths(paths: &Vec<GivenPath>) -> (r: Vec<String>)
    ensures
        text::characters(r@) == paths@.map_values(|p: GivenPath| left_out(p)),
{
    let mut out: Vec<String> = Vec::new();
    let mut i: usize = 0;
    while i < paths.len()
        invariant
            i <= paths@.len(),
            out@.len() == i,
            forall|k: int| 0 <= k < i ==> (#[trigger] out@[k])@ == left_out(paths@[k]),
        decreases paths@.len() - i,
    {
        let given = paths[i].given.as_str();
        if text::has_char(given, '*') || text::has_char(given, '?') {
            out.push(paths[i].given.clone());
        } else {
            match &paths[i].absolute {
                Some(abs) => out.push(abs.clone()),
                None => out.push(paths[i].given.clone()),
            }
        }
        i = i + 1;
    }
    assert(text::characters(out@) =~= paths@.map_values(|p: GivenPath| left_out(p)));
    out
}

/// The root of a bundle: of a single path, the directory that holds it, or the path
/// itself where none does; of several, what they have in common.
pub fn bundle_root(paths: &Vec<String>, parent_of_first: Option<String>, common: String) -> (r: String)
    ensures
        paths@.len() != 1 ==> r == common,
        paths@.len() == 1 ==> r@ == (match parent_of_first {
            Some(parent) => parent@,
            None => paths@[0]@,
        }),
{
    if paths.len() == 1 {
        match parent_of_first {
            Some(parent) => parent,
            None => paths[0].clone(),
        }
    } else {
        common
    }
}

/// What a path to archive turned out to be.
#[derive(Debug, Copy, Clone, PartialEq, Eq, Structural)]
pub enum NodeKind {
    /// A file.
    File,
    /// A directory.
    Directory,
    /// Something else.
    Other,
}

/// Whether the beginning of the work on a node is announced: not for directories.
pub fn announces_start(kind: NodeKind) -> (r: bool)
    ensures
        r == !(kind is Directory),
{
    match kind {
        NodeKind::Directory => false,
        _ => true,
    }
}

/// The size that a scan counts for a node: only files have one.
pub fn scanned_bytes(kind: NodeKind, size: u64) -> (r: u64)
    ensures
        r == (if kind is File {
            size
        } else {
            0
        }),
{
    match kind {
        NodeKind::File => size,
        _ => 0,
    }
}

/// What can go wrong with a single node. None of it ends the command.
#[derive(Debug, Copy, Clone, PartialEq, Eq, Structural)]
pub enum NodeStep {
    /// Finding it.
    Scan,
    /// Reading what it is.
    Read,
    /// The task that stores it gave up.
    Task,
    /// Storing its contents.
    Store,
    /// The task that scans ahead gave up.
    Background,
}

/// What is said where something goes wrong with a node.
pub open spec fn node_failed(step: NodeStep, path: Seq<char>, why: Seq<char>) -> Seq<char> {
    match step {
        NodeStep::Scan => "scan error: "@ + why,
        NodeStep::Read => "node error: "@ + why,
        NodeStep::Task => "chunking task panicked for "@ + path + ": "@ + why,
        NodeStep::Store => "error chunking "@ + path + ": "@ + why,
        NodeStep::Background => "background scanner panicked: "@ + why,
    }
}

/// What is said where something goes wrong with a node.
pub fn node_error(step: NodeStep, path: &str, why: &str) -> (r: String)
    ensures
        r@ == node_failed(step, path@, why@),
{
    match step {
        NodeStep::Scan => text::join2("scan error: ", why),
        NodeStep::Read => text::join2("node error: ", why),
        NodeStep::Task => {
            let mut s = text::join3("chunking task panicked for ", path, ": ");
            s.append(why);
            s
        },
        NodeStep::Store => {
            let mut s = text::join3("error chunking ", path, ": ");
            s.append(why);
            s
        },
        NodeStep::Background => text::join2("background scanner panicked: ", why),
    }
}

/// The root of what was archived, which has to be there.
pub fn root_tree(found: Option<ID>) -> (r: Result<ID, BundleError>)
    ensures
        match found {
            Some(id) => r matches Ok(v) && v == id,
            None => r matches Err(BundleError::BundleFailed(s)) && s@ == "root tree ID not set"@,
        },
{
    match found {
        Some(id) => Ok(id),
        None => Err(BundleError::BundleFailed("root tree ID not set".to_owned())),
    }
}

// ---------------------------------------------------------------------------
// Importing
// ---------------------------------------------------------------------------

/// A piece in the index of a bundle.
#[derive(Debug, Copy, Clone, PartialEq, Eq, Structural)]
pub struct BundleIndexEntry {
    /// Its identifier.
    pub id: ID,
    /// What it is.
    pub blob_type: BlobType,
    /// Its length before it was encoded.
    pub raw_length: u32,
}

/// The lengths of some pieces, added up.
pub open spec fn total_length(entries: Seq<BundleIndexEntry>) -> nat
    decreases entries.len(),
{
    if entries.len() == 0 {
        0
    } else {
        total_length(entries.drop_last()) + entries.last().raw_length as nat
    }
}

/// The pieces that are not in the repository yet, in their order. `present` tells of
/// each whether it is.
pub open spec fn missing(entries: Seq<BundleIndexEntry>, present: Seq<bool>) -> Seq<BundleIndexEntry>
    decreases entries.len(),
{
    if entries.len() == 0 || present.len() != entries.len() {
        Seq::empty()
    } else {
        let most = missing(entries.drop_last(), present.drop_last());
        if present.last() {
            most
        } else {
            most.push(entries.last())
        }
    }
}

/// What an import does.
#[derive(Debug)]
pub struct ImportPlan {
    /// The pieces to import.
    pub to_import: Vec<BundleIndexEntry>,
    /// How many are there already.
    pub skipped: usize,
    /// The length of all that is imported.
    pub import_bytes: u64,
}

proof fn lemma_missing(entries: Seq<BundleIndexEntry>, present: Seq<bool>, i: int)
    requires
        entries.len() == present.len(),
        0 <= i < entries.len(),
    ensures
        missing(entries.take(i + 1), present.take(i + 1)) == if present[i] {
            missing(entries.take(i), present.take(i))
        } else {
            missing(entries.take(i), present.take(i)).push(entries[i])
        },
        total_length(missing(entries.take(i + 1), present.take(i + 1))) == total_length(
            missing(entries.take(i), present.take(i)),
        ) + if present[i] {
            0
        } else {
            entries[i].raw_length as nat
        },
{
    assert(entries.take(i + 1).drop_last() =~= entries.take(i));
    assert(present.take(i + 1).drop_last() =~= present.take(i));
    let m = missing(entries.take(i), present.take(i));
    assert(m.push(entries[i]).drop_last() =~= m);
}

/// Whether the lengths of some pieces can be added up.
pub fn lengths_fit(entries: &Vec<BundleIndexEntry>) -> (r: bool)
    ensures
        r == (total_length(entries@) <= u64::MAX),
{
    let mut sum: u64 = 0;
    let mut i: usize = 0;
    assert(entries@.take(0) =~= Seq::<BundleIndexEntry>::empty());
    while i < entries.len()
        invariant
            i <= entries@.len(),
            sum == total_length(entries@.take(i as int)),
        decreases entries@.len() - i,
    {
        proof {
            lemma_total_grows(entries@, i as int);
        }
        match sum.checked_add(entries[i].raw_length as u64) {
            Some(more) => {
                sum = more;
            },
            None => {
                return false;
            },
        }
        i = i + 1;
    }
    assert(entries@.take(entries@.len() as int) =~= entries@);
    true
}

/// Decides what an import does: only what the repository does not have yet is
/// imported.
pub fn import_plan(entries: &Vec<BundleIndexEntry>, present: &Vec<bool>) -> (r: ImportPlan)
    requires
        entries@.len() == present@.len(),
        total_length(entries@) <= u64::MAX,
    ensures
        r.to_import@ == missing(entries@, present@),
        r.skipped == entries@.len() - r.to_import@.len(),
        r.import_bytes == total_length(r.to_import@),
{
    let mut to_import: Vec<BundleIndexEntry> = Vec::new();
    let mut import_bytes: u64 = 0;
    let mut i: usize = 0;
    assert(entries@.take(0) =~= Seq::<BundleIndexEntry>::empty());
    assert(to_import@ =~= missing(entries@.take(0), present@.take(0)));
    while i < entries.len()
        invariant
            i <= entries@.len(),
            entries@.len() == present@.len(),
            total_length(entries@) <= u64::MAX,
            to_import@ == missing(entries@.take(i as int), present@.take(i as int)),
            to_import@.len() <= i,
            import_bytes == total_length(to_import@),
            import_bytes <= total_length(entries@.take(i as int)),
        decreases entries@.len() - i,
    {
        proof {
            lemma_missing(entries@, present@, i as int);
            lemma_total_grows(entries@, i as int);
        }
        if !present[i] {
            import_bytes = import_bytes + entries[i].raw_length as u64;
            to_import.push(entries[i]);
        }
        i = i + 1;
    }
    assert(entries@.take(entries@.len() as int) =~= entries@);
    assert(present@.take(present@.len() as int) =~= present@);
    let skipped: usize = entries.len() - to_import.len();
    ImportPlan { to_import, skipped, import_bytes }
}

proof fn lemma_total_grows(entries: Seq<BundleIndexEntry>, i: int)
    requires
        0 <= i < entries.len(),
    ensures
        total_length(entries.take(i + 1)) == total_length(entries.take(i)) + entries[i].raw_length as nat,
        total_length(entries.take(i + 1)) <= total_length(entries),
    decreases entries.len(),
{
    assert(entries.take(i + 1).drop_last() =~= entries.take(i));
    if i + 1 < entries.len() {
        let most = entries.drop_last();
        lemma_total_grows(most, i);
        assert(most.take(i + 1) =~= entries.take(i + 1));
    } else {
        assert(entries.take(i + 1) =~= entries);
    }
}

/// The data among some pieces.
pub open spec fn data_count(entries: Seq<BundleIndexEntry>) -> nat
    decreases entries.len(),
{
    if entries.len() == 0 {
        0
    } else {
        data_count(entries.drop_last()) + if entries.last().blob_type == BlobType::Data {
            1nat
        } else {
            0
        }
    }
}

/// The length of what is no data among some pieces.
pub open spec fn meta_length(entries: Seq<BundleIndexEntry>) -> nat
    decreases entries.len(),
{
    if entries.len() == 0 {
        0
    } else {
        meta_length(entries.drop_last()) + if entries.last().blob_type == BlobType::Data {
            0
        } else {
            entries.last().raw_length as nat
        }
    }
}

/// What a snapshot that was imported says of itself.
pub open spec fn import_summary_of(entries: Seq<BundleIndexEntry>) -> SnapshotSummary {
    let raw = total_length(entries) as u64;
    let meta = meta_length(entries) as u64;
    let data = data_count(entries) as u64;
    SnapshotSummary {
        processed_items_count: data,
        processed_bytes: raw,
        raw_bytes: raw,
        encoded_bytes: raw,
        meta_raw_bytes: meta,
        meta_encoded_bytes: meta,
        total_raw_bytes: raw,
        total_encoded_bytes: raw,
        data_blobs: data,
        meta_blobs: (entries.len() - data_count(entries)) as u64,
        diff_counts: DiffCounts {
            new_files: 0,
            changed_files: 0,
            deleted_files: 0,
            unchanged_files: 0,
            new_dirs: 0,
            changed_dirs: 0,
            deleted_dirs: 0,
            unchanged_dirs: 0,
        },
    }
}

/// What a snapshot that was imported says of itself.
pub fn import_summary(entries: &Vec<BundleIndexEntry>) -> (r: SnapshotSummary)
    requires
        total_length(entries@) <= u64::MAX,
    ensures
        r == import_summary_of(entries@),
{
    let mut raw: u64 = 0;
    let mut meta: u64 = 0;
    let mut data: u64 = 0;
    let mut i: usize = 0;
    assert(entries@.take(0) =~= Seq::<BundleIndexEntry>::empty());
    while i < entries.len()
        invariant
            i <= entries@.len(),
            total_length(entries@) <= u64::MAX,
            raw == total_length(entries@.take(i as int)),
            meta == meta_length(entries@.take(i as int)),
            data == data_count(entries@.take(i as int)),
            meta <= raw,
            data <= i,
        decreases entries@.len() - i,
    {
        proof {
            lemma_total_grows(entries@, i as int);
            assert(entries@.take(i + 1).drop_last() =~= entries@.take(i as int));
        }
        let e = entries[i];
        raw = raw + e.raw_length as u64;
        match e.blob_type {
            BlobType::Data => {
                data = data + 1;
            },
            _ => {
                meta = meta + e.raw_length as u64;
            },
        }
        i = i + 1;
    }
    assert(entries@.take(entries@.len() as int) =~= entries@);
    SnapshotSummary {
        processed_items_count: data,
        processed_bytes: raw,
        raw_bytes: raw,
        encoded_bytes: raw,
        meta_raw_bytes: meta,
        meta_encoded_bytes: meta,
        total_raw_bytes: raw,
        total_encoded_bytes: raw,
        data_blobs: data,
        meta_blobs: entries.len() as u64 - data,
        diff_counts: DiffCounts::default(),
    }
}

/// The description of a snapshot that was imported from the file with this name.
pub fn import_description(file_name: &str) -> (r: String)
    ensures
        r@ == "Imported from bundle "@ + file_name@,
{
    text::join2("Imported from bundle ", file_name)
}

/// What is told before the pieces of a bundle are imported. `count` says how many
/// there are to import, and `size` what their length is.
pub fn import_notice(step: &str, plan: &ImportPlan, count: &str, size: &str) -> (r: String)
    ensures
        r@ == (if plan.to_import@.len() == 0 {
            step@ + " All blobs already present — creating snapshot..."@
        } else {
            step@ + " "@ + count@ + " blobs ("@ + size@ + "), "@ + text::decimal(plan.skipped as nat)
                + " skipped already present..."@
        }),
{
    if plan.to_import.len() == 0 {
        return text::join2(step, " All blobs already present — creating snapshot...");
    }
    let mut s = text::join3(step, " ", count);
    s.append(" blobs (");
    s.append(size);
    s.append("), ");
    s.append(text::number_text(plan.skipped as u64).as_str());
    s.append(" skipped already present...");
    s
}

/// Whether a summary is printed after an import: where anything was imported, and not
/// as JSON.
pub fn summarizes_import(plan: &ImportPlan, json: bool) -> (r: bool)
    ensures
        r == (plan.to_import@.len() > 0 && !json),
{
    plan.to_import.len() > 0 && !json
}

/// The snapshot that an import makes.
#[derive(Debug)]
pub struct ImportedSnapshot {
    /// Its directory.
    pub tree: ID,
    /// The path that it stands for.
    pub root: String,
    /// The paths that were archived.
    pub paths: Vec<String>,
    /// What is said of it.
    pub description: String,
    /// What it says of itself.
    pub summary: SnapshotSummary,
}

/// Whether a snapshot is the one of a bundle: it has the directory of the bundle,
/// stands for the root, and names the file of the bundle as its one path.
pub open spec fn is_of_bundle(
    s: ImportedSnapshot,
    root_tree: ID,
    path: GivenPath,
    file_name: Seq<char>,
    entries: Seq<BundleIndexEntry>,
) -> bool {
    &&& s.tree == root_tree
    &&& s.root@ == "/"@
    &&& s.paths@.len() == 1
    &&& s.paths@[0]@ == worked_with(path)
    &&& s.description@ == "Imported from bundle "@ + file_name
    &&& s.summary == import_summary_of(entries)
}

/// Whether a result is what an import comes to: the error of the import, or else the
/// snapshot of the bundle.
pub open spec fn import_comes_to(
    imported: Result<(), BundleError>,
    root_tree: ID,
    path: GivenPath,
    file_name: Seq<char>,
    entries: Seq<BundleIndexEntry>,
    r: Result<ImportedSnapshot, BundleError>,
) -> bool {
    match imported {
        Err(e) => r == Err::<ImportedSnapshot, BundleError>(e),
        Ok(_) => r matches Ok(s) && is_of_bundle(s, root_tree, path, file_name, entries),
    }
}

/// The snapshot to save once the pieces of a bundle are imported. There is none
/// after an error. `given` is the path of the bundle, and `absolute` the same made
/// absolute, where that can be done.
pub fn imported_snapshot(
    imported: Result<(), BundleError>,
    root_tree: ID,
    given: String,
    absolute: Option<String>,
    file_name: &str,
    entries: &Vec<BundleIndexEntry>,
) -> (r: Result<ImportedSnapshot, BundleError>)
    requires
        total_length(entries@) <= u64::MAX,
    ensures
        import_comes_to(imported, root_tree, (GivenPath { given, absolute }), file_name@, entries@, r),
{
    match imported {
        Err(e) => Err(e),
        Ok(_) => {
            let mut paths: Vec<String> = Vec::new();
            match absolute {
                Some(path) => paths.push(path),
                None => paths.push(given),
            }
            Ok(
                ImportedSnapshot {
                    tree: root_tree,
                    root: "/".to_owned(),
                    paths,
                    description: import_description(file_name),
                    summary: import_summary(entries),
                },
            )
        },
    }
}

/// What is said at the end of an import of `n` bundles.
pub fn import_closing(n: usize) -> (r: String)
    ensures
        r@ == (if n > 1 {
            "All "@ + text::decimal(n as nat) + " bundles imported successfully."@
        } else {
            "Bundle imported successfully."@
        }),
{
    if n > 1 {
        text::join3("All ", text::number_text(n as u64).as_str(), " bundles imported successfully.")
    } else {
        "Bundle imported successfully.".to_owned()
    }
}

// ---------------------------------------------------------------------------
// Failures
// ---------------------------------------------------------------------------

/// A step of the command that can fail.
#[derive(Debug, Copy, Clone, PartialEq, Eq, Structural)]
pub enum BundleStep {
    /// Anything that needs no more words.
    Plain,
    /// Opening the repository.
    Backend,
    /// The task that archives gave up.
    ProcessTask,
    /// Encoding a piece: the task gave up.
    EncodeTask,
    /// Saving a piece.
    SaveBlob,
    /// Writing down a snapshot.
    Serialize,
    /// Saving a snapshot.
    SaveSnapshot,
}

/// What is said where a step fails.
pub open spec fn step_failed(step: BundleStep) -> Seq<char> {
    match step {
        BundleStep::Plain => Seq::empty(),
        BundleStep::Backend => "failed to initialize repository backend: "@,
        BundleStep::ProcessTask => "process task panicked: "@,
        BundleStep::EncodeTask => "encoding task panicked: "@,
        BundleStep::SaveBlob => "failed to save blob: "@,
        BundleStep::Serialize => "failed to serialize snapshot: "@,
        BundleStep::SaveSnapshot => "failed to save snapshot: "@,
    }
}

/// The error of a step that fails.
pub fn step_error(step: BundleStep, why: &str) -> (r: BundleError)
    ensures
        r matches BundleError::BundleFailed(s) && s@ == step_failed(step) + why@,
{
    let s: String = match step {
        BundleStep::Plain => why.to_owned(),
        BundleStep::Backend => text::join2("failed to initialize repository backend: ", why),
        BundleStep::ProcessTask => text::join2("process task panicked: ", why),
        BundleStep::EncodeTask => text::join2("encoding task panicked: ", why),
        BundleStep::SaveBlob => text::join2("failed to save blob: ", why),
        BundleStep::Serialize => text::join2("failed to serialize snapshot: ", why),
        BundleStep::SaveSnapshot => text::join2("failed to save snapshot: ", why),
    };
    assert(step is Plain ==> Seq::<char>::empty() + why@ =~= why@);
    BundleError::BundleFailed(s)
}

/// The error of a bundle that cannot be opened.
pub fn open_error(path: &str, why: &str) -> (r: BundleError)
    ensures
        r matches BundleError::BundleFailed(s) && s@ == "failed to open bundle "@ + path@ + ": "@ + why@,
{
    let mut s = text::join3("failed to open bundle ", path, ": ");
    s.append(why);
    BundleError::BundleFailed(s)
}

/// The error of a piece that cannot be loaded.
pub fn load_error(id: &str, why: &str) -> (r: BundleError)
    ensures
        r matches BundleError::BundleFailed(s) && s@ == "failed to load blob "@ + id@ + ": "@ + why@,
{
    let mut s = text::join3("failed to load blob ", id, ": ");
    s.append(why);
    BundleError::BundleFailed(s)
}

/// A step of an export that can fail.
#[derive(Debug, Copy, Clone, PartialEq, Eq, Structural)]
pub enum ExportStep {
    /// Anything that needs no more words.
    Plain,
    /// Saving a piece: the task gave up.
    Task,
    /// Looking at the bundle that was written.
    Stat,
}

/// What is said where a step of an export fails.
pub open spec fn export_failed(step: ExportStep) -> Seq<char> {
    match step {
        ExportStep::Plain => Seq::empty(),
        ExportStep::Task => "export task panicked: "@,
        ExportStep::Stat => "failed to stat bundle file: "@,
    }
}

/// The error of a step of an export that fails.
pub fn export_error(step: ExportStep, why: &str) -> (r: MapacheError)
    ensures
        r matches MapacheError::Repo(t) && t.says(export_failed(step) + why@),
{
    let s: String = match step {
        ExportStep::Plain => why.to_owned(),
        ExportStep::Task => text::join2("export task panicked: ", why),
        ExportStep::Stat => text::join2("failed to stat bundle file: ", why),
    };
    assert(step is Plain ==> Seq::<char>::empty() + why@ =~= why@);
    MapacheError::Repo(ErrorText::plain(s))
}

/// The error of a directory that cannot be loaded.
pub fn tree_error(id: &str, why: &str) -> (r: MapacheError)
    ensures
        r matches MapacheError::Repo(t) && t.says("failed to load tree "@ + id@ + ": "@ + why@),
{
    let mut s = text::join3("failed to load tree ", id, ": ");
    s.append(why);
    MapacheError::Repo(ErrorText::plain(s))
}

/// The snapshot to export, which has to be there.
pub fn snapshot_to_export<T>(found: Option<T>, wanted: &UseSnapshot) -> (r: Result<T, MapacheError>)
    ensures
        match found {
            Some(v) => r matches Ok(w) && w == v,
            None => r matches Err(MapacheError::Repo(t)) && t.says(
                "no snapshot found matching '"@ + wanted.named() + "'"@,
            ),
        },
{
    match found {
        Some(v) => Ok(v),
        None => Err(
            MapacheError::Repo(
                ErrorText::plain(text::join3("no snapshot found matching '", wanted.to_text().as_str(), "'")),
            ),
        ),
    }
}

// ---------------------------------------------------------------------------
// Reports
// ---------------------------------------------------------------------------

/// What is told before a snapshot is exported.
pub fn export_title(step: &str, id: &str, time: &str) -> (r: String)
    ensures
        r@ == step@ + " Exporting snapshot "@ + id@ + " ("@ + time@ + ")..."@,
{
    let mut s = text::join3(step, " Exporting snapshot ", id);
    s.append(" (");
    s.append(time);
    s.append(")...");
    s
}

/// What is told of a bundle that was created.
pub fn creation_rows(summary: &SnapshotProcessSummary, final_size: u64) -> (r: Vec<Row>)
    ensures
        report::table(r@) == seq![
            report::row_of("Processed items"@, seq![report::CellView::Count(summary.processed_items_count)]),
            report::row_of("Original size"@, seq![report::CellView::Size(summary.processed_bytes)]),
            report::row_of("Bundle size"@, seq![report::CellView::Size(final_size)]),
            report::row_of("Compression ratio"@, seq![report::CellView::Share(final_size, summary.processed_bytes)]),
        ],
{
    let mut rows = report::no_rows();
    report::add_row(&mut rows, report::row1("Processed items", Cell::Count(summary.processed_items_count)));
    report::add_row(&mut rows, report::row1("Original size", Cell::Size(summary.processed_bytes)));
    report::add_row(&mut rows, report::row1("Bundle size", Cell::Size(final_size)));
    report::add_row(
        &mut rows,
        report::row1("Compression ratio", Cell::Share { part: final_size, whole: summary.processed_bytes }),
    );
    assert(report::table(rows@) =~= seq![
        report::row_of("Processed items"@, seq![report::CellView::Count(summary.processed_items_count)]),
        report::row_of("Original size"@, seq![report::CellView::Size(summary.processed_bytes)]),
        report::row_of("Bundle size"@, seq![report::CellView::Size(final_size)]),
        report::row_of("Compression ratio"@, seq![report::CellView::Share(final_size, summary.processed_bytes)]),
    ]);
    rows
}

/// What is told of a bundle that was extracted.
pub fn extraction_rows(total_items: u64, total_bytes: u64) -> (r: Vec<Row>)
    ensures
        report::table(r@) == seq![
            report::row_of("Extracted items"@, seq![report::CellView::Count(total_items)]),
            report::row_of("Total size"@, seq![report::CellView::Size(total_bytes)]),
        ],
{
    let mut rows = report::no_rows();
    report::add_row(&mut rows, report::row1("Extracted items", Cell::Count(total_items)));
    report::add_row(&mut rows, report::row1("Total size", Cell::Size(total_bytes)));
    assert(report::table(rows@) =~= seq![
        report::row_of("Extracted items"@, seq![report::CellView::Count(total_items)]),
        report::row_of("Total size"@, seq![report::CellView::Size(total_bytes)]),
    ]);
    rows
}

/// What is told of a snapshot that was exported.
pub fn export_rows(snapshot: String, blobs: u64, total_bytes: u64, final_size: u64, duration: String) -> (r: Vec<Row>)
    ensures
        report::table(r@) == seq![
            report::row_of("Snapshot"@, seq![report::CellView::Text(snapshot@)]),
            report::row_of("Exported blobs"@, seq![report::CellView::Count(blobs)]),
            report::row_of("Original size"@, seq![report::CellView::Size(total_bytes)]),
            report::row_of("Bundle size"@, seq![report::CellView::Size(final_size)]),
            report::row_of("Compression ratio"@, seq![report::CellView::Share(final_size, total_bytes)]),
            report::row_of("Duration"@, seq![report::CellView::Text(duration@)]),
        ],
{
    let ghost snap = snapshot@;
    let ghost dur = duration@;
    let mut rows = report::no_rows();
    report::add_row(&mut rows, report::row1("Snapshot", Cell::Text(snapshot)));
    report::add_row(&mut rows, report::row1("Exported blobs", Cell::Count(blobs)));
    report::add_row(&mut rows, report::row1("Original size", Cell::Size(total_bytes)));
    report::add_row(&mut rows, report::row1("Bundle size", Cell::Size(final_size)));
    report::add_row(&mut rows, report::row1("Compression ratio", Cell::Share { part: final_size, whole: total_bytes }));
    report::add_row(&mut rows, report::row1("Duration", Cell::Text(duration)));
    assert(report::table(rows@) =~= seq![
        report::row_of("Snapshot"@, seq![report::CellView::Text(snap)]),
        report::row_of("Exported blobs"@, seq![report::CellView::Count(blobs)]),
        report::row_of("Original size"@, seq![report::CellView::Size(total_bytes)]),
        report::row_of("Bundle size"@, seq![report::CellView::Size(final_size)]),
        report::row_of("Compression ratio"@, seq![report::CellView::Share(final_size, total_bytes)]),
        report::row_of("Duration"@, seq![report::CellView::Text(dur)]),
    ]);
    rows
}

/// What is told of a bundle that was imported.
pub fn import_rows(snapshot: String, imported: u64, skipped: u64, import_bytes: u64, duration: String) -> (r: Vec<Row>)
    ensures
        report::table(r@) == seq![
            report::row_of("New snapshot"@, seq![report::CellView::Text(snapshot@)]),
            report::row_of("Blobs imported"@, seq![report::CellView::Count(imported)]),
            report::row_of("Blobs skipped (existing)"@, seq![report::CellView::Count(skipped)]),
            report::row_of("Imported size"@, seq![report::CellView::Size(import_bytes)]),
            report::row_of("Duration"@, seq![report::CellView::Text(duration@)]),
        ],
{
    let ghost snap = snapshot@;
    let ghost dur = duration@;
    let mut rows = report::no_rows();
    report::add_row(&mut rows, report::row1("New snapshot", Cell::Text(snapshot)));
    report::add_row(&mut rows, report::row1("Blobs imported", Cell::Count(imported)));
    report::add_row(&mut rows, report::row1("Blobs skipped (existing)", Cell::Count(skipped)));
    report::add_row(&mut rows, report::row1("Imported size", Cell::Size(import_bytes)));
    report::add_row(&mut rows, report::row1("Duration", Cell::Text(duration)));
    assert(report::table(rows@) =~= seq![
        report::row_of("New snapshot"@, seq![report::CellView::Text(snap)]),
        report::row_of("Blobs imported"@, seq![report::CellView::Count(imported)]),
        report::row_of("Blobs skipped (existing)"@, seq![report::CellView::Count(skipped)]),
        report::row_of("Imported size"@, seq![report::CellView::Size(import_bytes)]),
        report::row_of("Duration"@, seq![report::CellView::Text(dur)]),
    ]);
    rows
}

// ---------------------------------------------------------------------------
// Laws
// ---------------------------------------------------------------------------

/// Every piece of a bundle is imported or skipped: those that are imported are
/// exactly those that the repository does not have, and where it has them all,
/// nothing is.
pub proof fn law_imported_or_skipped(entries: Seq<BundleIndexEntry>, present: Seq<bool>)
    requires
        entries.len() == present.len(),
    ensures
        missing(entries, present).len() <= entries.len(),
        missing(entries, present).len() == 0 <==> forall|i: int| 0 <= i < present.len() ==> #[trigger] present[i],
        forall|e: BundleIndexEntry| #[trigger]
            missing(entries, present).contains(e) <==> exists|i: int|
                #![trigger entries[i]]
                0 <= i < entries.len() && entries[i] == e && !present[i],
    decreases entries.len(),
{
    let m = missing(entries, present);
    if entries.len() > 0 {
        let es = entries.drop_last();
        let ps = present.drop_last();
        let most = missing(es, ps);
        law_imported_or_skipped(es, ps);
        assert(forall|i: int| 0 <= i < ps.len() ==> ps[i] == present[i]);
        assert(present.last() == present[present.len() - 1]);
        if m.len() == 0 {
            assert forall|i: int| 0 <= i < present.len() implies #[trigger] present[i] by {
                if i < ps.len() {
                    assert(ps[i]);
                }
            }
        }
        if forall|i: int| 0 <= i < present.len() ==> #[trigger] present[i] {
            assert forall|i: int| 0 <= i < ps.len() implies #[trigger] ps[i] by {
                assert(present[i]);
            }
            assert(m == most);
        }
        assert forall|e: BundleIndexEntry| #[trigger] m.contains(e) <==> exists|i: int|
            #![trigger entries[i]]
            0 <= i < entries.len() && entries[i] == e && !present[i] by {
            if m.contains(e) {
                let k = choose|k: int| 0 <= k < m.len() && m[k] == e;
                if k < most.len() {
                    assert(most[k] == e);
                    assert(most.contains(e));
                    let i = choose|i: int| #![trigger es[i]] 0 <= i < es.len() && es[i] == e && !ps[i];
                    assert(entries[i] == e && !present[i]);
                } else {
                    assert(entries[entries.len() - 1] == e && !present[entries.len() - 1]);
                }
            }
            if exists|i: int| #![trigger entries[i]] 0 <= i < entries.len() && entries[i] == e && !present[i] {
                let i = choose|i: int|
                    #![trigger entries[i]]
                    0 <= i < entries.len() && entries[i] == e && !present[i];
                if i < es.len() {
                    assert(es[i] == e && !ps[i]);
                    assert(most.contains(e));
                    let k = choose|k: int| 0 <= k < most.len() && most[k] == e;
                    assert(m[k] == e);
                } else {
                    assert(m[m.len() - 1] == e);
                }
            }
        }
    }
}

/// An import makes its snapshot exactly where every piece that was missing was
/// imported, so also where none was missing; after a piece that failed there is the
/// error of the first that did, and no snapshot.
pub proof fn law_a_snapshot_follows_a_whole_import(
    results: Seq<Result<(), BundleError>>,
    root_tree: ID,
    path: GivenPath,
    file_name: Seq<char>,
    entries: Seq<BundleIndexEntry>,
    r: Result<ImportedSnapshot, BundleError>,
)
    requires
        import_comes_to(errors::first_error(results), root_tree, path, file_name, entries, r),
    ensures
        r is Ok <==> forall|i: int| 0 <= i < results.len() ==> (#[trigger] results[i]) is Ok,
        results.len() == 0 ==> r is Ok,
        r matches Ok(s) ==> s.tree == root_tree,
        r matches Err(e) ==> exists|i: int|
            #![trigger results[i]]
            0 <= i < results.len() && results[i] == Err::<(), BundleError>(e) && forall|j: int|
                0 <= j < i ==> (#[trigger] results[j]) is Ok,
{
    errors::law_all_done_or_some_error(results);
}

/// The pieces of a bundle are data or not, and so are their lengths: what a
/// snapshot that was imported says of itself adds up.
pub proof fn law_import_summary_adds_up(entries: Seq<BundleIndexEntry>)
    requires
        total_length(entries) <= u64::MAX,
        entries.len() <= u64::MAX,
    ensures
        ({
            let s = import_summary_of(entries);
            &&& s.data_blobs + s.meta_blobs == entries.len()
            &&& s.meta_raw_bytes <= s.raw_bytes
            &&& s.raw_bytes == total_length(entries)
            &&& s.total_raw_bytes == s.raw_bytes && s.total_encoded_bytes == s.encoded_bytes
        }),
{
    lemma_counts(entries);
}

proof fn lemma_counts(entries: Seq<BundleIndexEntry>)
    ensures
        data_count(entries) <= entries.len(),
        meta_length(entries) <= total_length(entries),
    decreases entries.len(),
{
    if entries.len() > 0 {
        lemma_counts(entries.drop_last());
    }
}

/// What each error comes to: its exit code, which is never that of success, and what is
/// said of it, which ends with what went wrong.
pub proof fn law_errors_tell_what_went_wrong(e: BundleError)
    ensures
        0 < e.exit_code() < 256,
        e matches BundleError::BundleFailed(t) ==> e.exit_code() == 20 && e.message() == "bundle failed: "@ + t@,
        e matches BundleError::Io(t) ==> e.exit_code() == 1 && e.message() == t@,
        e matches BundleError::Repo(t) ==> e.exit_code() == 1 && e.message() == t.displayed(),
        e matches BundleError::Config(t) ==> e.exit_code() == 10 && e.message() == "config error: "@ + t@,
{
}

/// Where a step fails it is told which one it was.
pub proof fn law_each_step_is_told(step: BundleStep, other: BundleStep)
    ensures
        step_failed(step) == step_failed(other) <==> step == other,
        step is Plain ==> step_failed(step).len() == 0,
        step is Backend ==> step_failed(step) == "failed to initialize repository backend: "@,
        step is ProcessTask ==> step_failed(step) == "process task panicked: "@,
        step is EncodeTask ==> step_failed(step) == "encoding task panicked: "@,
        step is SaveBlob ==> step_failed(step) == "failed to save blob: "@,
        step is Serialize ==> step_failed(step) == "failed to serialize snapshot: "@,
        step is SaveSnapshot ==> step_failed(step) == "failed to save snapshot: "@,
{
    reveal_strlit("failed to initialize repository backend: ");
    reveal_strlit("process task panicked: ");
    reveal_strlit("encoding task panicked: ");
    reveal_strlit("failed to save blob: ");
    reveal_strlit("failed to serialize snapshot: ");
    reveal_strlit("failed to save snapshot: ");
    assert("failed to initialize repository backend: "@.len() != "process task panicked: "@.len());
    assert("failed to initialize repository backend: "@.len() != "encoding task panicked: "@.len());
    assert("failed to initialize repository backend: "@.len() != "failed to save blob: "@.len());
    assert("failed to initialize repository backend: "@.len() != "failed to serialize snapshot: "@.len());
    assert("failed to initialize repository backend: "@.len() != "failed to save snapshot: "@.len());
    assert("process task panicked: "@.len() != "encoding task panicked: "@.len());
    assert("process task panicked: "@.len() != "failed to save blob: "@.len());
    assert("process task panicked: "@.len() != "failed to serialize snapshot: "@.len());
    assert("process task panicked: "@.len() != "failed to save snapshot: "@.len());
    assert("encoding task panicked: "@.len() != "failed to save blob: "@.len());
    assert("encoding task panicked: "@.len() != "failed to serialize snapshot: "@.len());
    assert("encoding task panicked: "@.len() != "failed to save snapshot: "@.len());
    assert("failed to save blob: "@.len() != "failed to serialize snapshot: "@.len());
    assert("failed to save blob: "@.len() != "failed to save snapshot: "@.len());
    assert("failed to serialize snapshot: "@.len() != "failed to save snapshot: "@.len());
}

/// Where a step fails it is told which one it was.
pub proof fn law_each_step_of_an_export_is_told(step: ExportStep, other: ExportStep)
    ensures
        export_failed(step) == export_failed(other) <==> step == other,
        step is Plain ==> export_failed(step).len() == 0,
        step is Task ==> export_failed(step) == "export task panicked: "@,
        step is Stat ==> export_failed(step) == "failed to stat bundle file: "@,
{
    reveal_strlit("export task panicked: ");
    reveal_strlit("failed to stat bundle file: ");
    assert("export task panicked: "@.len() != "failed to stat bundle file: "@.len());
}

/// What goes wrong with a node is told with the reason, and with its path where the
/// reason would not show it.
pub proof fn law_what_is_told_of_a_node(step: NodeStep, path: Seq<char>, why: Seq<char>)
    ensures
        step is Scan ==> node_failed(step, path, why) == "scan error: "@ + why,
        step is Read ==> node_failed(step, path, why) == "node error: "@ + why,
        step is Task ==> node_failed(step, path, why) == "chunking task panicked for "@ + path + ": "@ + why,
        step is Store ==> node_failed(step, path, why) == "error chunking "@ + path + ": "@ + why,
        step is Background ==> node_failed(step, path, why) == "background scanner panicked: "@ + why,
{
}

/// What the command is asked to do goes by the first of its switches: to export, to
/// import, to create, to extract, and to mount where none of these is set.
pub proof fn law_the_switches_say_what_to_do(args: CmdArgs)
    ensures
        asked(args) is Export <==> args.export_snapshot is Some,
        asked(args) is Import <==> args.export_snapshot is None && args.import,
        asked(args) is Create <==> args.export_snapshot is None && !args.import && args.bundle,
        asked(args) is Extract <==> args.export_snapshot is None && !args.import && !args.bundle && args.extract,
        asked(args) is Mount <==> args.export_snapshot is None && !args.import && !args.bundle && !args.extract,
{
}

/// The options are in order exactly where there is what the work needs: to export a
/// file to write and a repository, to import files to read and a repository, to create
/// paths to read and a file to write, to extract one file, and to mount a file and a
/// place. How many paths there are is a failure where some are there, and for an import
/// always; anything else that is missing is an error of the options.
pub proof fn law_each_work_has_what_it_needs(args: CmdArgs, repo: Seq<char>)
    ensures
        fault(args, repo) is None <==> (match asked(args) {
            Mode::Export => args.output is Some && repo.len() > 0,
            Mode::Import => args.input@.len() > 0 && repo.len() > 0,
            Mode::Create => args.input@.len() > 0 && args.output is Some,
            Mode::Extract => args.input@.len() == 1,
            Mode::Mount => args.input@.len() == 2,
        }),
        (fault(args, repo) matches Some(f) && f is Failed) <==> {
            ||| asked(args) is Import && args.input@.len() == 0
            ||| asked(args) is Extract && args.input@.len() > 1
            ||| asked(args) is Mount && args.input@.len() > 0 && args.input@.len() != 2
        },
{
}

/// An error tells of a fault where it is of the same kind and says the same.
pub proof fn law_telling_is_saying_the_same(e: BundleError, m: Seq<char>)
    ensures
        tells(e, Fault::Config(m)) <==> (e matches BundleError::Config(s) && s@ == m),
        tells(e, Fault::Failed(m)) <==> (e matches BundleError::BundleFailed(s) && s@ == m),
{
}

/// A path is made absolute where that can be done, and else is left as it was given;
/// but what holds a wildcard and is to be left out is never made absolute.
pub proof fn law_patterns_stay_as_given(p: GivenPath)
    ensures
        p.absolute is Some ==> worked_with(p) == p.absolute.unwrap()@,
        p.absolute is None ==> worked_with(p) == p.given@,
        p.given@.contains('*') || p.given@.contains('?') ==> left_out(p) == p.given@,
        !p.given@.contains('*') && !p.given@.contains('?') ==> left_out(p) == worked_with(p),
{
}

/// Each piece is counted by itself: of one piece there is its length, it is data or it
/// is not, and it is missing or it is not; and what there is of two lists, one behind
/// the other, is what there is of the first and of the second together.
pub proof fn law_each_piece_counts_by_itself(
    e: BundleIndexEntry,
    a: Seq<BundleIndexEntry>,
    of_a: Seq<bool>,
    b: Seq<BundleIndexEntry>,
    of_b: Seq<bool>,
)
    requires
        a.len() == of_a.len(),
        b.len() == of_b.len(),
    ensures
        total_length(seq![e]) == e.raw_length,
        data_count(seq![e]) == (if e.blob_type is Data {
            1nat
        } else {
            0
        }),
        meta_length(seq![e]) == (if e.blob_type is Data {
            0
        } else {
            e.raw_length as nat
        }),
        missing(seq![e], seq![false]) == seq![e],
        missing(seq![e], seq![true]) == Seq::<BundleIndexEntry>::empty(),
        total_length(a + b) == total_length(a) + total_length(b),
        data_count(a + b) == data_count(a) + data_count(b),
        meta_length(a + b) == meta_length(a) + meta_length(b),
        missing(a + b, of_a + of_b) == missing(a, of_a) + missing(b, of_b),
    decreases b.len(),
{
    let none = Seq::<BundleIndexEntry>::empty();
    let one = seq![e];
    assert(one.drop_last() =~= none);
    assert(seq![true].drop_last() =~= Seq::<bool>::empty());
    assert(seq![false].drop_last() =~= Seq::<bool>::empty());
    reveal_with_fuel(total_length, 2);
    reveal_with_fuel(data_count, 2);
    reveal_with_fuel(meta_length, 2);
    reveal_with_fuel(missing, 2);
    assert(missing(one, seq![false]) =~= one);
    assert(missing(one, seq![true]) =~= none);
    if b.len() == 0 {
        assert(a + b =~= a);
        assert(of_a + of_b =~= of_a);
        assert(missing(a, of_a) + missing(b, of_b) =~= missing(a, of_a));
    } else {
        law_each_piece_counts_by_itself(e, a, of_a, b.drop_last(), of_b.drop_last());
        assert((a + b).drop_last() =~= a + b.drop_last());
        assert((of_a + of_b).drop_last() =~= of_a + of_b.drop_last());
        assert((a + b).last() == b.last());
        assert((of_a + of_b).last() == of_b.last());
        assert(missing(a + b, of_a + of_b) =~= missing(a, of_a) + missing(b, of_b));
    }
}

/// What a snapshot that was imported says of itself: as many items as there are pieces
/// of data, all the bytes of all the pieces, those of the directories as metadata, as
/// stored as they are, and no changes.
pub proof fn law_what_an_imported_snapshot_says(entries: Seq<BundleIndexEntry>)
    requires
        total_length(entries) <= u64::MAX,
        entries.len() <= u64::MAX,
    ensures
        ({
            let s = import_summary_of(entries);
            &&& s.data_blobs == data_count(entries)
            &&& s.meta_blobs == entries.len() - data_count(entries)
            &&& s.processed_items_count == data_count(entries)
            &&& s.processed_bytes == total_length(entries)
            &&& s.raw_bytes == total_length(entries) && s.encoded_bytes == total_length(entries)
            &&& s.meta_raw_bytes == meta_length(entries) && s.meta_encoded_bytes == meta_length(entries)
            &&& s.total_raw_bytes == total_length(entries) && s.total_encoded_bytes == total_length(entries)
            &&& s.diff_counts.new_files == 0 && s.diff_counts.changed_files == 0
            &&& s.diff_counts.deleted_files == 0 && s.diff_counts.unchanged_files == 0
            &&& s.diff_counts.new_dirs == 0 && s.diff_counts.changed_dirs == 0
            &&& s.diff_counts.deleted_dirs == 0 && s.diff_counts.unchanged_dirs == 0
        }),
{
    lemma_counts(entries);
}

/// The snapshot of an import is that of its bundle: the directory of the bundle under
/// the root, the file of the bundle as its path, and its name in the description. An
/// error of the import is what the whole comes to.
pub proof fn law_an_import_comes_to_its_bundle(
    imported: Result<(), BundleError>,
    root_tree: ID,
    path: GivenPath,
    file_name: Seq<char>,
    entries: Seq<BundleIndexEntry>,
    r: Result<ImportedSnapshot, BundleError>,
)
    requires
        import_comes_to(imported, root_tree, path, file_name, entries, r),
    ensures
        imported is Ok <==> r is Ok,
        imported matches Err(e) ==> r == Err::<ImportedSnapshot, BundleError>(e),
        r matches Ok(s) ==> {
            &&& s.tree == root_tree
            &&& s.root@ == "/"@
            &&& s.paths@.len() == 1 && s.paths@[0]@ == worked_with(path)
            &&& s.description@ == "Imported from bundle "@ + file_name
            &&& s.summary == import_summary_of(entries)
        },
{
}

/// What is wrong with the options is told with what is missing; where two things are,
/// the one that is looked at first.
pub proof fn law_what_is_missing_is_told(args: CmdArgs, repo: Seq<char>)
    ensures
        asked(args) is Export && args.output is None ==> fault(args, repo) == Some(
            Fault::Config("-o is required for export mode"@),
        ),
        asked(args) is Export && args.output is Some && repo.len() == 0 ==> fault(args, repo) == Some(
            Fault::Config(
                "Repository path is required for export mode. Use -r, set MAPACHE_REPOSITORY, or add it to config file."@,
            ),
        ),
        asked(args) is Import && args.input@.len() == 0 ==> fault(args, repo) == Some(
            Fault::Failed("import mode requires at least one bundle file as input"@),
        ),
        asked(args) is Import && args.input@.len() > 0 && repo.len() == 0 ==> fault(args, repo) == Some(
            Fault::Config(
                "Repository path is required for import mode. Use -r, set MAPACHE_REPOSITORY, or add it to config file."@,
            ),
        ),
        asked(args) is Create && args.input@.len() == 0 ==> fault(args, repo) == Some(
            Fault::Config("bundle mode requires at least one input path"@),
        ),
        asked(args) is Create && args.input@.len() > 0 && args.output is None ==> fault(args, repo) == Some(
            Fault::Config("-o is required for bundle mode"@),
        ),
        asked(args) is Extract && args.input@.len() == 0 ==> fault(args, repo) == Some(
            Fault::Config("extract mode requires a bundle file as input"@),
        ),
        asked(args) is Extract && args.input@.len() > 1 ==> fault(args, repo) == Some(
            Fault::Failed("extract mode requires exactly one bundle file as input"@),
        ),
        asked(args) is Mount && args.input@.len() == 0 ==> fault(args, repo) == Some(
            Fault::Config("mount mode requires a bundle file and mountpoint"@),
        ),
        asked(args) is Mount && args.input@.len() > 0 && args.input@.len() != 2 ==> fault(args, repo) == Some(
            Fault::Failed("mount mode requires: bundle.mapache <mountpoint>"@),
        ),
{
}

} // verus!
