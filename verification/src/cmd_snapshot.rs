//! `snapshot`: taking a new snapshot.

use vstd::prelude::*;
use crate::access::Needs;
use crate::errors::{MapacheError, ToExitCode};
use crate::global;
use crate::global::{Defaults, HookArgs};
use crate::ids::ID;
use crate::merge;
use crate::merge::Merge;
use crate::options::UseSnapshot;
use crate::report;
use crate::report::{Cell, Row};
use crate::tags;
use crate::text;
use crate::text::Alphabet;
use crate::text_set::TextSet;

verus! {

/// Why a snapshot could not be taken.
#[derive(Debug)]
pub enum SnapshotError {
    /// The storage could not be used.
    BackendError(String),
    /// The repository could not be opened.
    RepoOpenFail(String),
    /// A source path is of no use.
    SourcePathError(String),
    /// There is no such parent.
    ParentNotFound(String),
    /// The work itself failed.
    SnapshotFailed(String),
    /// The user broke it off.
    Interrupted,
    /// An error of the repository.
    Repo(MapacheError),
    /// An error of the file system.
    Io(String),
}

impl ToExitCode for SnapshotError {
    open spec fn exit_code(&self) -> i32 {
        match self {
            SnapshotError::BackendError(_) => 11,
            SnapshotError::RepoOpenFail(_) => 12,
            SnapshotError::SourcePathError(_) => 20,
            SnapshotError::ParentNotFound(_) => 21,
            SnapshotError::SnapshotFailed(_) => 30,
            SnapshotError::Interrupted => 130,
            SnapshotError::Repo(_) => 1,
            SnapshotError::Io(_) => 1,
        }
    }

    open spec fn message(&self) -> Seq<char> {
        match self {
            SnapshotError::BackendError(s) => "backend error: "@ + s@,
            SnapshotError::RepoOpenFail(s) => "failed to open repository: "@ + s@,
            SnapshotError::SourcePathError(s) => "invalid source path: "@ + s@,
            SnapshotError::ParentNotFound(s) => "parent snapshot not found: "@ + s@,
            SnapshotError::SnapshotFailed(s) => "snapshot creation failed: "@ + s@,
            SnapshotError::Interrupted => "snapshot interrupted by user"@,
            SnapshotError::Repo(e) => e.displayed(),
            SnapshotError::Io(s) => s@,
        }
    }

    fn to_exit_code(&self) -> i32 {
        match self {
            SnapshotError::BackendError(_) => 11,
            SnapshotError::RepoOpenFail(_) => 12,
            SnapshotError::SourcePathError(_) => 20,
            SnapshotError::ParentNotFound(_) => 21,
            SnapshotError::SnapshotFailed(_) => 30,
            SnapshotError::Interrupted => 130,
            SnapshotError::Repo(_) => 1,
            SnapshotError::Io(_) => 1,
        }
    }

    fn to_text(&self) -> String {
        match self {
            SnapshotError::BackendError(s) => text::join2("backend error: ", s.as_str()),
            SnapshotError::RepoOpenFail(s) => text::join2("failed to open repository: ", s.as_str()),
            SnapshotError::SourcePathError(s) => text::join2("invalid source path: ", s.as_str()),
            SnapshotError::ParentNotFound(s) => text::join2("parent snapshot not found: ", s.as_str()),
            SnapshotError::SnapshotFailed(s) => text::join2("snapshot creation failed: ", s.as_str()),
            SnapshotError::Interrupted => "snapshot interrupted by user".to_owned(),
            SnapshotError::Repo(e) => e.shown(),
            SnapshotError::Io(s) => s.clone(),
        }
    }
}

// ---------------------------------------------------------------------------
// Options
// ---------------------------------------------------------------------------

/// The options of the command.
#[derive(Debug, Clone, Default)]
pub struct CmdArgs {
    /// List of paths to backup.
    pub paths: Vec<String>,
    /// Use a single directory path as the snapshot root.
    pub as_root: Option<bool>,
    /// A list of paths to leave out.
    pub exclude: Option<Vec<String>>,
    /// A file with a list of paths to leave out, one per line.
    pub exclude_file: Option<String>,
    /// Tags.
    pub tags_str: Option<String>,
    /// Snapshot description.
    pub description: Option<String>,
    /// Force a complete analysis of all files and directories.
    pub no_parent: bool,
    /// Don't scan the file system.
    pub no_scan: Option<bool>,
    /// Don't create a snapshot if there are no changes since the parent snapshot.
    pub skip_if_unchanged: Option<bool>,
    /// Use a snapshot as parent.
    pub parent: Option<UseSnapshot>,
    /// Number of files to process in parallel.
    pub num_readers: Option<usize>,
    /// Number of writer threads.
    pub num_packers: Option<usize>,
    /// Dry run.
    pub dry_run: bool,
    /// Store the access time for all files and directories.
    pub with_atime: Option<bool>,
    /// Read backup data from stdin as a single file.
    pub stdin: bool,
    /// Hooks of the command line.
    pub hook_args: HookArgs,
}

impl CmdArgs {
    /// The options that a template of the configuration file shows.
    pub fn template(defaults: &Defaults) -> (r: CmdArgs)
        ensures
            r.paths@.len() == 1 && r.paths@[0]@ == "/home/user/Documents"@,
            r.as_root == Some(false),
            r.exclude matches Some(v) && v@.len() == 2 && v@[0]@ == "**/node_modules"@ && v@[1]@ == "**/.git"@,
            r.exclude_file is None,
            r.tags_str matches Some(s) && s@ == "work,important"@,
            r.description matches Some(s) && s@ == "Daily backup"@,
            !r.no_parent,
            r.no_scan == Some(false),
            r.skip_if_unchanged == Some(false),
            r.parent matches Some(UseSnapshot::Latest),
            r.num_readers == Some(defaults.snapshot_readers),
            r.num_packers == Some(defaults.snapshot_packers),
            !r.dry_run,
            r.with_atime == Some(false),
            !r.stdin,
            r.hook_args.pre_hook is None,
            r.hook_args.post_hook is None,
    {
        let mut paths: Vec<String> = Vec::new();
        paths.push("/home/user/Documents".to_owned());
        let mut exclude: Vec<String> = Vec::new();
        exclude.push("**/node_modules".to_owned());
        exclude.push("**/.git".to_owned());
        CmdArgs {
            paths,
            as_root: Some(false),
            exclude: Some(exclude),
            exclude_file: None,
            tags_str: Some("work,important".to_owned()),
            description: Some("Daily backup".to_owned()),
            no_parent: false,
            no_scan: Some(false),
            skip_if_unchanged: Some(false),
            parent: Some(UseSnapshot::Latest),
            num_readers: Some(defaults.snapshot_readers),
            num_packers: Some(defaults.snapshot_packers),
            dry_run: false,
            with_atime: Some(false),
            stdin: false,
            hook_args: HookArgs::default(),
        }
    }

    /// How the command wants its repository: a dry run writes nothing.
    pub fn needs(&self) -> (r: Needs)
        ensures
            r == (Needs { dry_backend: self.dry_run, exclusive_lock: false }),
    {
        Needs { dry_backend: self.dry_run, exclusive_lock: false }
    }
}

impl Merge for CmdArgs {
    open spec fn merged(self, other: Self) -> Self {
        CmdArgs {
            paths: merge::first_list(self.paths, other.paths),
            as_root: merge::first(self.as_root, other.as_root),
            exclude: merge::first_optional_list(self.exclude, other.exclude),
            exclude_file: merge::first(self.exclude_file, other.exclude_file),
            tags_str: merge::first(self.tags_str, other.tags_str),
            description: merge::first(self.description, other.description),
            no_parent: self.no_parent,
            no_scan: merge::first(self.no_scan, other.no_scan),
            skip_if_unchanged: merge::first(self.skip_if_unchanged, other.skip_if_unchanged),
            parent: merge::first(self.parent, other.parent),
            num_readers: merge::first(self.num_readers, other.num_readers),
            num_packers: merge::first(self.num_packers, other.num_packers),
            dry_run: self.dry_run,
            with_atime: merge::first(self.with_atime, other.with_atime),
            stdin: self.stdin,
            hook_args: self.hook_args,
        }
    }

    fn merge(&mut self, other: Self) {
        merge::merge_list(&mut self.paths, other.paths);
        merge::merge_opt(&mut self.as_root, other.as_root);
        merge::merge_option_vec(&mut self.exclude, other.exclude);
        merge::merge_opt(&mut self.exclude_file, other.exclude_file);
        merge::merge_opt(&mut self.tags_str, other.tags_str);
        merge::merge_opt(&mut self.description, other.description);
        merge::merge_opt(&mut self.no_scan, other.no_scan);
        merge::merge_opt(&mut self.skip_if_unchanged, other.skip_if_unchanged);
        merge::merge_opt(&mut self.parent, other.parent);
        merge::merge_opt(&mut self.num_readers, other.num_readers);
        merge::merge_opt(&mut self.num_packers, other.num_packers);
        merge::merge_opt(&mut self.with_atime, other.with_atime);
    }
}

/// What a number of readers reads as.
pub open spec fn readers(s: Seq<char>) -> Result<usize, Seq<char>> {
    match text::unsigned(s) {
        Some(n) => if n > usize::MAX {
            Err("'"@ + s + "' is not a valid number"@)
        } else if n == 0 {
            Err("readers must be greater than 0"@)
        } else {
            Ok(n as usize)
        },
        None => Err("'"@ + s + "' is not a valid number"@),
    }
}

/// Reads a number of readers.
pub fn parse_readers(s: &str) -> (r: Result<usize, String>)
    ensures
        text::agrees(r, readers(s@)),
{
    match text::parse_unsigned(s, usize::MAX as u128) {
        Some(n) => {
            if n == 0 {
                Err("readers must be greater than 0".to_owned())
            } else {
                Ok(n as usize)
            }
        },
        None => Err(text::join3("'", s, "' is not a valid number")),
    }
}

/// What a number of readers in the configuration file comes to.
pub open spec fn readers_value(opt: Option<usize>) -> Result<Option<usize>, Seq<char>> {
    if opt == Some(0usize) {
        Err("readers must be greater than 0"@)
    } else {
        Ok(opt)
    }
}

/// Takes a number of readers from the configuration file.
pub fn deserialize_readers_opt(opt: Option<usize>) -> (r: Result<Option<usize>, String>)
    ensures
        text::agrees(r, readers_value(opt)),
{
    match opt {
        Some(0) => Err("readers must be greater than 0".to_owned()),
        other => Ok(other),
    }
}

/// What a snapshot is taken with.
#[derive(Debug)]
pub struct SnapshotRunOptions {
    /// List of paths to backup.
    pub paths: Vec<String>,
    /// Use a single directory path as the snapshot root.
    pub as_root: bool,
    /// A list of paths to leave out.
    pub exclude: Option<Vec<String>>,
    /// A file with a list of paths to leave out, one per line.
    pub exclude_file: Option<String>,
    /// Tags.
    pub tags: Option<String>,
    /// Snapshot description.
    pub description: Option<String>,
    /// Don't scan the file system.
    pub no_scan: bool,
    /// Don't create a snapshot if there are no changes since the parent snapshot.
    pub skip_if_unchanged: bool,
    /// Store the access time for all files and directories.
    pub with_atime: bool,
    /// Number of files to process in parallel.
    pub num_readers: usize,
    /// Number of writer threads.
    pub num_packers: usize,
    /// Read backup data from stdin as a single file.
    pub stdin: bool,
}

/// Whether two lists hold the same texts in the same order.
pub open spec fn same_texts(a: Seq<String>, b: Seq<String>) -> bool {
    a.len() == b.len() && forall|i: int| 0 <= i < a.len() ==> (#[trigger] a[i])@ == b[i]@
}

/// A list of the same texts.
pub fn copy_texts(v: &Vec<String>) -> (r: Vec<String>)
    ensures
        same_texts(r@, v@),
{
    let mut out: Vec<String> = Vec::new();
    let mut i: usize = 0;
    while i < v.len()
        invariant
            i <= v@.len(),
            out@.len() == i,
            forall|k: int| 0 <= k < i ==> (#[trigger] out@[k])@ == v@[k]@,
        decreases v@.len() - i,
    {
        out.push(v[i].clone());
        i = i + 1;
    }
    out
}

impl SnapshotRunOptions {
    /// Whether these are what the options say, and what holds where they say nothing.
    pub open spec fn are_those_of(self, args: CmdArgs, defaults: Defaults) -> bool {
        &&& same_texts(self.paths@, args.paths@)
        &&& self.as_root == global::or_else(args.as_root, false)
        &&& match (self.exclude, args.exclude) {
            (Some(a), Some(b)) => same_texts(a@, b@),
            (None, None) => true,
            _ => false,
        }
        &&& self.exclude_file == args.exclude_file
        &&& self.tags == args.tags_str
        &&& self.description == args.description
        &&& self.no_scan == global::or_else(args.no_scan, false)
        &&& self.skip_if_unchanged == global::or_else(args.skip_if_unchanged, false)
        &&& self.with_atime == global::or_else(args.with_atime, false)
        &&& self.num_readers == global::or_else(args.num_readers, defaults.snapshot_readers)
        &&& self.num_packers == global::or_else(args.num_packers, defaults.snapshot_packers)
        &&& self.stdin == args.stdin
    }

    /// What a snapshot is taken with: what the options say, and what holds where
    /// they say nothing.
    pub fn from_args(args: &CmdArgs, defaults: &Defaults) -> (r: SnapshotRunOptions)
        ensures
            r.are_those_of(*args, *defaults),
            same_texts(r.paths@, args.paths@),
            r.as_root == global::or_else(args.as_root, false),
            match (r.exclude, args.exclude) {
                (Some(a), Some(b)) => same_texts(a@, b@),
                (None, None) => true,
                _ => false,
            },
            r.exclude_file == args.exclude_file,
            r.tags == args.tags_str,
            r.description == args.description,
            r.no_scan == global::or_else(args.no_scan, false),
            r.skip_if_unchanged == global::or_else(args.skip_if_unchanged, false),
            r.with_atime == global::or_else(args.with_atime, false),
            r.num_readers == global::or_else(args.num_readers, defaults.snapshot_readers),
            r.num_packers == global::or_else(args.num_packers, defaults.snapshot_packers),
            r.stdin == args.stdin,
    {
        let exclude: Option<Vec<String>> = match &args.exclude {
            Some(v) => Some(copy_texts(v)),
            None => None,
        };
        SnapshotRunOptions {
            paths: copy_texts(&args.paths),
            as_root: args.as_root.unwrap_or(false),
            exclude,
            exclude_file: args.exclude_file.clone(),
            tags: args.tags_str.clone(),
            description: args.description.clone(),
            no_scan: args.no_scan.unwrap_or(false),
            skip_if_unchanged: args.skip_if_unchanged.unwrap_or(false),
            with_atime: args.with_atime.unwrap_or(false),
            num_readers: args.num_readers.unwrap_or(defaults.snapshot_readers),
            num_packers: args.num_packers.unwrap_or(defaults.snapshot_packers),
            stdin: args.stdin,
        }
    }
}

// ---------------------------------------------------------------------------
// Before the work
// ---------------------------------------------------------------------------

/// Whether credentials can be had without asking for them, which has to be where
/// the data comes from where they would be typed.
pub open spec fn credentials_at_hand(auth_file: bool, username: bool, password: bool) -> bool {
    auth_file || (username && password)
}

/// Checks the options before anything else is done. `auth_file` tells whether
/// there is a file with credentials, `username` and `password` whether the
/// environment holds them.
pub fn check_args(args: &CmdArgs, auth_file: bool, username: bool, password: bool) -> (r: Result<(), SnapshotError>)
    ensures
        if args.stdin && !credentials_at_hand(auth_file, username, password) {
            r matches Err(SnapshotError::SourcePathError(s)) && s@
                == "--stdin requires --auth-file or both MAPACHE_USERNAME and MAPACHE_PASSWORD env vars (stdin is consumed by backup data, so password cannot be prompted interactively)"@
        } else if args.paths@.len() == 0 && !args.stdin {
            r matches Err(SnapshotError::SourcePathError(s)) && s@ == "no source paths provided."@
        } else {
            r is Ok
        },
{
    if args.stdin && !auth_file && (!username || !password) {
        return Err(
            SnapshotError::SourcePathError(
                "--stdin requires --auth-file or both MAPACHE_USERNAME and MAPACHE_PASSWORD env vars (stdin is consumed by backup data, so password cannot be prompted interactively)".to_owned(),
            ),
        );
    }
    if args.paths.len() == 0 && !args.stdin {
        return Err(SnapshotError::SourcePathError("no source paths provided.".to_owned()));
    }
    Ok(())
}

/// What was found of a source path. Paths are shown in quotes.
#[derive(Debug)]
pub enum SourceFound {
    /// It is there.
    Present,
    /// It cannot be made absolute.
    Invalid {
        /// The path as it was given.
        shown: String,
        /// Why not.
        why: String,
    },
    /// It cannot be looked at.
    Unreachable {
        /// The absolute path.
        shown: String,
        /// Why not.
        why: String,
    },
    /// It is not there.
    Absent {
        /// The absolute path.
        shown: String,
    },
}

/// What is said of a source path, where it is not as it should be.
pub open spec fn source_fault(found: SourceFound) -> Option<Seq<char>> {
    match found {
        SourceFound::Present => None,
        SourceFound::Invalid { shown, why } => Some("error processing path "@ + shown@ + ": "@ + why@),
        SourceFound::Unreachable { shown, why } => Some("error accessing path "@ + shown@ + ": "@ + why@),
        SourceFound::Absent { shown } => Some("source path does not exist: "@ + shown@),
    }
}

/// Checks one source path.
pub fn check_source(found: &SourceFound) -> (r: Result<(), SnapshotError>)
    ensures
        match source_fault(*found) {
            None => r is Ok,
            Some(m) => r matches Err(SnapshotError::SourcePathError(s)) && s@ == m,
        },
{
    match found {
        SourceFound::Present => Ok(()),
        SourceFound::Invalid { shown, why } => {
            let mut s = text::join2("error processing path ", shown.as_str());
            s.append(": ");
            s.append(why.as_str());
            Err(SnapshotError::SourcePathError(s))
        },
        SourceFound::Unreachable { shown, why } => {
            let mut s = text::join2("error accessing path ", shown.as_str());
            s.append(": ");
            s.append(why.as_str());
            Err(SnapshotError::SourcePathError(s))
        },
        SourceFound::Absent { shown } => Err(
            SnapshotError::SourcePathError(text::join2("source path does not exist: ", shown.as_str())),
        ),
    }
}

/// Checks the source paths, the first one first: the first that is not as it should
/// be is the one that is told of.
pub fn check_sources(found: &Vec<SourceFound>) -> (r: Result<(), SnapshotError>)
    ensures
        match r {
            Ok(_) => forall|i: int| 0 <= i < found@.len() ==> source_fault(#[trigger] found@[i]) is None,
            Err(e) => exists|i: int|
                #![trigger found@[i]]
                0 <= i < found@.len() && (e matches SnapshotError::SourcePathError(s) && source_fault(found@[i]) == Some(
                    s@,
                )) && forall|j: int| 0 <= j < i ==> source_fault(#[trigger] found@[j]) is None,
        },
{
    let mut i: usize = 0;
    while i < found.len()
        invariant
            i <= found@.len(),
            forall|j: int| 0 <= j < i ==> source_fault(#[trigger] found@[j]) is None,
        decreases found@.len() - i,
    {
        match check_source(&found[i]) {
            Ok(_) => {},
            Err(e) => {
                assert(source_fault(found@[i as int]) is Some);
                return Err(e);
            },
        }
        i = i + 1;
    }
    Ok(())
}

/// Which parent to look for: none where the data comes from stdin or where a full
/// scan is asked for, else the one that was given, or the most recent snapshot.
pub fn parent_wanted(args: &CmdArgs) -> (r: Option<UseSnapshot>)
    ensures
        args.stdin || args.no_parent ==> r is None,
        !args.stdin && !args.no_parent ==> r is Some,
        r matches Some(u) ==> match args.parent {
            Some(given) => u.named() == given.named() && (u is Latest <==> given is Latest),
            None => u is Latest,
        },
{
    if args.stdin || args.no_parent {
        return None;
    }
    match &args.parent {
        Some(UseSnapshot::SnapshotId(id)) => Some(UseSnapshot::SnapshotId(id.clone())),
        Some(UseSnapshot::Latest) => Some(UseSnapshot::Latest),
        None => Some(UseSnapshot::Latest),
    }
}

/// The parent that was found, if there is one; not to find one is an error only
/// where the search itself fails.
pub fn resolve_parent_snapshot<T>(found: Result<Option<T>, MapacheError>) -> (r: Result<Option<T>, SnapshotError>)
    ensures
        match found {
            Ok(v) => r matches Ok(w) && w == v,
            Err(e) => r matches Err(SnapshotError::ParentNotFound(s)) && s@ == e.displayed(),
        },
{
    match found {
        Ok(v) => Ok(v),
        Err(e) => Err(SnapshotError::ParentNotFound(e.shown())),
    }
}

/// What is told of the parent before the work.
#[derive(Debug, Copy, Clone, PartialEq, Eq, Structural)]
pub enum ParentNote {
    /// A full scan was asked for.
    FullScan,
    /// A snapshot serves as parent.
    UsingParent,
    /// There is none.
    NoParent,
}

/// What is told of the parent before the work.
pub fn parent_note(no_parent: bool, has_parent: bool) -> (r: ParentNote)
    ensures
        r == (if no_parent {
            ParentNote::FullScan
        } else if has_parent {
            ParentNote::UsingParent
        } else {
            ParentNote::NoParent
        }),
{
    if no_parent {
        ParentNote::FullScan
    } else if has_parent {
        ParentNote::UsingParent
    } else {
        ParentNote::NoParent
    }
}

/// Where the paths to archive come from.
#[derive(Debug, Copy, Clone, PartialEq, Eq, Structural)]
pub enum Sources {
    /// They are the given paths.
    Given,
    /// They are what is in the one directory that was given.
    InsideRoot,
}

/// Where the paths to archive come from. `first_is_dir` tells whether the first path
/// is a directory.
pub fn sources_of(options: &SnapshotRunOptions, first_is_dir: bool) -> (r: Result<Sources, SnapshotError>)
    ensures
        if !options.as_root {
            r matches Ok(s) && s == Sources::Given
        } else if options.paths@.len() != 1 {
            r matches Err(SnapshotError::SourcePathError(s)) && s@ == "only one path can be the snapshot root"@
        } else if !first_is_dir {
            r matches Err(SnapshotError::SourcePathError(s)) && s@ == "the snapshot root must be a directory"@
        } else {
            r matches Ok(s) && s == Sources::InsideRoot
        },
{
    if !options.as_root {
        return Ok(Sources::Given);
    }
    if options.paths.len() != 1 {
        return Err(SnapshotError::SourcePathError("only one path can be the snapshot root".to_owned()));
    }
    if !first_is_dir {
        return Err(SnapshotError::SourcePathError("the snapshot root must be a directory".to_owned()));
    }
    Ok(Sources::InsideRoot)
}

/// The tags of the new snapshot: those that are listed, but for the mark that
/// stands for none.
pub open spec fn snapshot_tags(listed: Option<String>) -> Set<Seq<char>> {
    match listed {
        Some(list) => tags::tags_named(list@).remove(tags::EMPTY_TAG_MARK@),
        None => Set::empty(),
    }
}

/// The tags of the new snapshot.
pub fn tags_of(options: &SnapshotRunOptions) -> (r: TextSet)
    ensures
        r.well_formed(),
        r.alphabet == Alphabet::Plain,
        r@ == snapshot_tags(options.tags),
{
    match &options.tags {
        Some(list) => tags::parse_tags(Some(list.as_str())).without(tags::EMPTY_TAG_MARK),
        None => TextSet::new(Alphabet::Plain),
    }
}

/// The texts of a list.
pub open spec fn texts(v: Seq<String>) -> Set<Seq<char>> {
    Set::new(|t: Seq<char>| exists|i: int| 0 <= i < v.len() && (#[trigger] v[i])@ == t)
}

/// The absolute paths, each once, in the order of paths.
pub fn source_set(paths: &Vec<String>) -> (r: TextSet)
    ensures
        r.well_formed(),
        r.alphabet == Alphabet::Path,
        r@ == texts(paths@),
{
    let mut out = TextSet::new(Alphabet::Path);
    let mut i: usize = 0;
    while i < paths.len()
        invariant
            i <= paths@.len(),
            out.well_formed(),
            out.alphabet == Alphabet::Path,
            forall|t: Seq<char>| #[trigger] out@.contains(t) <==> texts(paths@.take(i as int)).contains(t),
        decreases paths@.len() - i,
    {
        let ghost had = paths@.take(i as int);
        let ghost has = paths@.take(i + 1);
        out.insert(paths[i].clone());
        proof {
            assert forall|t: Seq<char>| #[trigger] texts(has).contains(t) <==> texts(had).contains(t) || t
                == paths@[i as int]@ by {
                if texts(had).contains(t) {
                    let k = choose|k: int| 0 <= k < had.len() && (#[trigger] had[k])@ == t;
                    assert(has[k]@ == t);
                }
                if texts(has).contains(t) {
                    let k = choose|k: int| 0 <= k < has.len() && (#[trigger] has[k])@ == t;
                    if k < i {
                        assert(had[k]@ == t);
                    }
                }
                if t == paths@[i as int]@ {
                    assert(has[i as int]@ == t);
                }
            }
        }
        i = i + 1;
    }
    assert(paths@.take(paths@.len() as int) =~= paths@);
    assert(out@ =~= texts(paths@));
    out
}

/// The paths that a filter lets through, in their order. `allowed` tells of each
/// whether it does.
pub open spec fn let_through(paths: Seq<String>, allowed: Seq<bool>) -> Seq<Seq<char>>
    decreases paths.len(),
{
    if paths.len() == 0 || allowed.len() != paths.len() {
        Seq::empty()
    } else {
        let most = let_through(paths.drop_last(), allowed.drop_last());
        if allowed.last() {
            most.push(paths.last()@)
        } else {
            most
        }
    }
}

/// The paths that a filter lets through.
pub fn filter_paths(paths: &Vec<String>, allowed: &Vec<bool>) -> (r: Vec<String>)
    requires
        paths@.len() == allowed@.len(),
    ensures
        text::characters(r@) == let_through(paths@, allowed@),
{
    let mut out: Vec<String> = Vec::new();
    let mut i: usize = 0;
    assert(text::characters(out@) =~= let_through(paths@.take(0), allowed@.take(0)));
    while i < paths.len()
        invariant
            i <= paths@.len(),
            paths@.len() == allowed@.len(),
            text::characters(out@) == let_through(paths@.take(i as int), allowed@.take(i as int)),
        decreases paths@.len() - i,
    {
        let ghost before = out@;
        proof {
            assert(paths@.take(i + 1).drop_last() =~= paths@.take(i as int));
            assert(allowed@.take(i + 1).drop_last() =~= allowed@.take(i as int));
        }
        if allowed[i] {
            out.push(paths[i].clone());
            assert(text::characters(out@) =~= text::characters(before).push(paths@[i as int]@));
        }
        i = i + 1;
    }
    assert(paths@.take(paths@.len() as int) =~= paths@);
    assert(allowed@.take(allowed@.len() as int) =~= allowed@);
    out
}

/// What is handed to the archiver.
#[derive(Debug)]
pub struct ArchivePlan {
    /// The paths to archive.
    pub paths: Vec<String>,
    /// The root of the snapshot.
    pub root: String,
    /// The paths to leave out.
    pub exclude: Vec<String>,
    /// Whether the parent is used.
    pub use_parent: bool,
    /// Don't scan the file system.
    pub no_scan: bool,
    /// Store the access time.
    pub with_atime: bool,
    /// Read the data from stdin.
    pub stdin: bool,
}

/// Whether a plan is the one for the options: where the data comes from stdin, the one
/// file that stands for it, else the paths under their common root.
pub open spec fn is_plan_for(
    r: ArchivePlan,
    options: SnapshotRunOptions,
    paths: Vec<String>,
    common_root: String,
    exclude: Option<Vec<String>>,
    has_parent: bool,
) -> bool {
    if options.stdin {
        &&& r.paths@.len() == 1 && r.paths@[0]@ == "/stdin"@
        &&& r.root@ == "/"@
        &&& r.exclude@.len() == 0
        &&& !r.use_parent && r.no_scan && !r.with_atime && r.stdin
    } else {
        &&& r.paths == paths
        &&& r.root == common_root
        &&& match exclude {
            Some(v) => r.exclude == v,
            None => r.exclude@.len() == 0,
        }
        &&& r.use_parent == has_parent
        &&& r.no_scan == options.no_scan
        &&& r.with_atime == options.with_atime
        &&& !r.stdin
    }
}

/// What is handed to the archiver: where the data comes from stdin, the one file
/// that stands for it; else the paths that are left, under their common root.
pub fn archive_plan(
    options: &SnapshotRunOptions,
    paths: Vec<String>,
    common_root: String,
    exclude: Option<Vec<String>>,
    has_parent: bool,
) -> (r: ArchivePlan)
    ensures
        is_plan_for(r, *options, paths, common_root, exclude, has_parent),
        options.stdin ==> {
            &&& r.paths@.len() == 1 && r.paths@[0]@ == "/stdin"@
            &&& r.root@ == "/"@
            &&& r.exclude@.len() == 0
            &&& !r.use_parent && r.no_scan && !r.with_atime && r.stdin
        },
        !options.stdin ==> {
            &&& r.paths == paths
            &&& r.root == common_root
            &&& match exclude {
                Some(v) => r.exclude == v,
                None => r.exclude@.len() == 0,
            }
            &&& r.use_parent == has_parent
            &&& r.no_scan == options.no_scan
            &&& r.with_atime == options.with_atime
            &&& !r.stdin
        },
{
    if options.stdin {
        let mut only: Vec<String> = Vec::new();
        only.push("/stdin".to_owned());
        return ArchivePlan {
            paths: only,
            root: "/".to_owned(),
            exclude: Vec::new(),
            use_parent: false,
            no_scan: true,
            with_atime: false,
            stdin: true,
        };
    }
    let exclude: Vec<String> = match exclude {
        Some(v) => v,
        None => Vec::new(),
    };
    ArchivePlan {
        paths,
        root: common_root,
        exclude,
        use_parent: has_parent,
        no_scan: options.no_scan,
        with_atime: options.with_atime,
        stdin: false,
    }
}

// ---------------------------------------------------------------------------
// After the work
// ---------------------------------------------------------------------------

/// How many files and directories changed.
#[derive(Debug, Copy, Clone, PartialEq, Eq, Structural)]
pub struct DiffCounts {
    /// New files.
    pub new_files: u64,
    /// Changed files.
    pub changed_files: u64,
    /// Deleted files.
    pub deleted_files: u64,
    /// Unchanged files.
    pub unchanged_files: u64,
    /// New directories.
    pub new_dirs: u64,
    /// Changed directories.
    pub changed_dirs: u64,
    /// Deleted directories.
    pub deleted_dirs: u64,
    /// Unchanged directories.
    pub unchanged_dirs: u64,
}

impl Default for DiffCounts {
    fn default() -> (r: Self)
        ensures
            r == (DiffCounts {
                new_files: 0,
                changed_files: 0,
                deleted_files: 0,
                unchanged_files: 0,
                new_dirs: 0,
                changed_dirs: 0,
                deleted_dirs: 0,
                unchanged_dirs: 0,
            }),
    {
        DiffCounts {
            new_files: 0,
            changed_files: 0,
            deleted_files: 0,
            unchanged_files: 0,
            new_dirs: 0,
            changed_dirs: 0,
            deleted_dirs: 0,
            unchanged_dirs: 0,
        }
    }
}

/// What a snapshot says of itself.
#[derive(Debug, Copy, Clone, PartialEq, Eq, Structural)]
pub struct SnapshotSummary {
    /// Number of items that were processed.
    pub processed_items_count: u64,
    /// Their size.
    pub processed_bytes: u64,
    /// Size of the new data.
    pub raw_bytes: u64,
    /// Size of the new data as stored.
    pub encoded_bytes: u64,
    /// Size of the new metadata.
    pub meta_raw_bytes: u64,
    /// Size of the new metadata as stored.
    pub meta_encoded_bytes: u64,
    /// Size of all that is new.
    pub total_raw_bytes: u64,
    /// Size of all that is new as stored.
    pub total_encoded_bytes: u64,
    /// Number of new pieces of data.
    pub data_blobs: u64,
    /// Number of new pieces of metadata.
    pub meta_blobs: u64,
    /// What changed.
    pub diff_counts: DiffCounts,
}

/// What was processed.
#[derive(Debug, Copy, Clone, PartialEq, Eq, Structural)]
pub struct SnapshotProcessSummary {
    /// Number of items that were processed.
    pub processed_items_count: u64,
    /// Their size.
    pub processed_bytes: u64,
    /// What changed.
    pub diff_counts: DiffCounts,
}

/// A size, as it is and as it is stored.
#[derive(Debug, Copy, Clone, PartialEq, Eq, Structural)]
pub struct SizePair {
    /// The size as it is.
    pub raw: u64,
    /// The size as it is stored.
    pub encoded: u64,
}

/// What the repository has written.
#[derive(Debug, Copy, Clone, PartialEq, Eq, Structural)]
pub struct RepoStats {
    /// Data.
    pub data: SizePair,
    /// Metadata.
    pub meta: SizePair,
    /// Index files.
    pub index: SizePair,
    /// Number of pieces of data.
    pub blobs: u64,
    /// Number of pieces of metadata.
    pub meta_blobs: u64,
}

/// What an archiving came to.
#[derive(Debug)]
pub enum ArchiveEnded<T> {
    /// There is a new snapshot.
    Archived(T),
    /// The user broke it off.
    Interrupted,
    /// It failed.
    Failed(SnapshotError),
}

/// What an archiving came to. Where it failed after the user broke it off, that is
/// no failure.
pub fn archive_ended<T>(result: Result<T, MapacheError>, interrupted: bool) -> (r: ArchiveEnded<T>)
    ensures
        match result {
            Ok(v) => r == ArchiveEnded::Archived(v),
            Err(e) => if interrupted {
                r is Interrupted
            } else {
                r matches ArchiveEnded::Failed(SnapshotError::SnapshotFailed(s)) && s@ == e.displayed()
            },
        },
{
    match result {
        Ok(v) => ArchiveEnded::Archived(v),
        Err(e) => {
            if interrupted {
                ArchiveEnded::Interrupted
            } else {
                ArchiveEnded::Failed(SnapshotError::SnapshotFailed(e.shown()))
            }
        },
    }
}

/// What was processed for a snapshot.
pub fn process_summary_of(summary: &SnapshotSummary) -> (r: SnapshotProcessSummary)
    ensures
        r == (SnapshotProcessSummary {
            processed_items_count: summary.processed_items_count,
            processed_bytes: summary.processed_bytes,
            diff_counts: summary.diff_counts,
        }),
{
    SnapshotProcessSummary {
        processed_items_count: summary.processed_items_count,
        processed_bytes: summary.processed_bytes,
        diff_counts: summary.diff_counts,
    }
}

/// Whether what the repository has written can be added up.
pub open spec fn adds_up(stats: RepoStats) -> bool {
    &&& stats.data.raw + stats.meta.raw <= u64::MAX
    &&& stats.data.encoded + stats.meta.encoded <= u64::MAX
}

/// Tells whether what the repository has written can be added up.
pub fn stats_fit(stats: &RepoStats) -> (r: bool)
    ensures
        r == adds_up(*stats),
{
    stats.data.raw <= u64::MAX - stats.meta.raw && stats.data.encoded <= u64::MAX - stats.meta.encoded
}

/// A summary with what the repository has written filled in.
pub open spec fn filled(summary: SnapshotSummary, stats: RepoStats) -> SnapshotSummary {
    SnapshotSummary {
        raw_bytes: stats.data.raw,
        encoded_bytes: stats.data.encoded,
        meta_raw_bytes: stats.meta.raw,
        meta_encoded_bytes: stats.meta.encoded,
        total_raw_bytes: (stats.data.raw + stats.meta.raw) as u64,
        total_encoded_bytes: (stats.data.encoded + stats.meta.encoded) as u64,
        data_blobs: stats.blobs,
        meta_blobs: stats.meta_blobs,
        ..summary
    }
}

/// Fills what the repository has written into a summary.
pub fn fill_summary(summary: SnapshotSummary, stats: &RepoStats) -> (r: SnapshotSummary)
    requires
        adds_up(*stats),
    ensures
        r == filled(summary, *stats),
{
    SnapshotSummary {
        processed_items_count: summary.processed_items_count,
        processed_bytes: summary.processed_bytes,
        raw_bytes: stats.data.raw,
        encoded_bytes: stats.data.encoded,
        meta_raw_bytes: stats.meta.raw,
        meta_encoded_bytes: stats.meta.encoded,
        total_raw_bytes: stats.data.raw + stats.meta.raw,
        total_encoded_bytes: stats.data.encoded + stats.meta.encoded,
        data_blobs: stats.blobs,
        meta_blobs: stats.meta_blobs,
        diff_counts: summary.diff_counts,
    }
}

/// Whether the new snapshot is saved.
pub open spec fn is_saved(skip_if_unchanged: bool, parent_tree: Option<ID>, new_tree: ID) -> bool {
    !skip_if_unchanged || parent_tree != Some(new_tree)
}

/// Whether the new snapshot is saved: always, unless it is to be skipped where
/// nothing changed, there is a parent, and nothing did change.
pub fn should_save(skip_if_unchanged: bool, parent_tree: Option<ID>, new_tree: ID) -> (r: bool)
    ensures
        r == is_saved(skip_if_unchanged, parent_tree, new_tree),
        r == !(skip_if_unchanged && parent_tree == Some(new_tree)),
{
    if !skip_if_unchanged {
        return true;
    }
    match parent_tree {
        Some(tree) => tree != new_tree,
        None => true,
    }
}

/// A snapshot that was saved, and what there is to say of it.
#[derive(Debug, Copy, Clone, PartialEq, Eq, Structural)]
pub struct SnapshotCompletion {
    /// Its identifier.
    pub snapshot_id: ID,
    /// What it says of itself, with the files that hold the snapshot and the index.
    pub summary: SnapshotSummary,
    /// What was processed.
    pub process_summary: SnapshotProcessSummary,
    /// Size of the metadata without the index.
    pub meta_without_index_raw: u64,
    /// Size of the metadata without the index, as stored.
    pub meta_without_index_encoded: u64,
    /// The time taken, in nanoseconds.
    pub duration_nanos: u128,
}

/// What the taking of a snapshot came to.
#[derive(Debug)]
pub enum SnapshotOutcome {
    /// It was saved.
    Saved(Box<SnapshotCompletion>),
    /// Nothing changed, and it was not saved.
    SkippedNoChanges,
    /// The user broke it off.
    Interrupted,
}

/// Whether all that was written can be added up, with the file of the snapshot.
pub open spec fn all_adds_up(stats: RepoStats, file: SizePair) -> bool {
    &&& stats.data.raw + stats.meta.raw + file.raw + stats.index.raw <= u64::MAX
    &&& stats.data.encoded + stats.meta.encoded + file.encoded + stats.index.encoded <= u64::MAX
}

/// Tells whether all that was written can be added up, with the file of the snapshot.
pub fn sums_fit(stats: &RepoStats, file: SizePair) -> (r: bool)
    ensures
        r == all_adds_up(*stats, file),
{
    let raw: u128 = stats.data.raw as u128 + stats.meta.raw as u128 + file.raw as u128 + stats.index.raw as u128;
    let encoded: u128 = stats.data.encoded as u128 + stats.meta.encoded as u128 + file.encoded as u128
        + stats.index.encoded as u128;
    raw <= u64::MAX as u128 && encoded <= u64::MAX as u128
}

/// The summary of a snapshot that was saved: to what was filled in come the files
/// that hold the snapshot itself and the index.
pub open spec fn persisted(summary: SnapshotSummary, stats: RepoStats, file: SizePair) -> SnapshotSummary {
    SnapshotSummary {
        meta_raw_bytes: (stats.meta.raw + file.raw + stats.index.raw) as u64,
        meta_encoded_bytes: (stats.meta.encoded + file.encoded + stats.index.encoded) as u64,
        total_raw_bytes: (stats.data.raw + stats.meta.raw + file.raw + stats.index.raw) as u64,
        total_encoded_bytes: (stats.data.encoded + stats.meta.encoded + file.encoded + stats.index.encoded) as u64,
        ..filled(summary, stats)
    }
}

/// What there is to say of a snapshot that was saved in a file of the given size.
pub fn completion_of(
    snapshot_id: ID,
    summary: SnapshotSummary,
    stats: &RepoStats,
    file: SizePair,
    duration_nanos: u128,
) -> (r: SnapshotCompletion)
    requires
        all_adds_up(*stats, file),
    ensures
        r.snapshot_id == snapshot_id,
        r.summary == persisted(summary, *stats, file),
        r.process_summary == (SnapshotProcessSummary {
            processed_items_count: summary.processed_items_count,
            processed_bytes: summary.processed_bytes,
            diff_counts: summary.diff_counts,
        }),
        r.meta_without_index_raw == stats.meta.raw + file.raw,
        r.meta_without_index_encoded == stats.meta.encoded + file.encoded,
        r.duration_nanos == duration_nanos,
{
    let process_summary = process_summary_of(&summary);
    let mut summary = fill_summary(summary, stats);
    let meta_without_index_raw: u64 = summary.meta_raw_bytes + file.raw;
    let meta_without_index_encoded: u64 = summary.meta_encoded_bytes + file.encoded;
    summary.meta_raw_bytes = summary.meta_raw_bytes + file.raw + stats.index.raw;
    summary.meta_encoded_bytes = summary.meta_encoded_bytes + file.encoded + stats.index.encoded;
    summary.total_raw_bytes = summary.raw_bytes + summary.meta_raw_bytes;
    summary.total_encoded_bytes = summary.encoded_bytes + summary.meta_encoded_bytes;
    SnapshotCompletion {
        snapshot_id,
        summary,
        process_summary,
        meta_without_index_raw,
        meta_without_index_encoded,
        duration_nanos,
    }
}

/// What is told of the outcome.
#[derive(Debug, Copy, Clone, PartialEq, Eq, Structural)]
pub enum OutcomeNote {
    /// The completion, as JSON.
    Json,
    /// The completion, as tables.
    Tables,
    /// That nothing changed.
    NoChanges,
    /// Nothing.
    Silent,
}

/// What is told of the outcome, and what the command comes to.
pub fn outcome_note(outcome: &SnapshotOutcome, json: bool) -> (r: Result<OutcomeNote, SnapshotError>)
    ensures
        match outcome {
            SnapshotOutcome::Saved(_) => r matches Ok(n) && n == (if json {
                OutcomeNote::Json
            } else {
                OutcomeNote::Tables
            }),
            SnapshotOutcome::SkippedNoChanges => r matches Ok(n) && n == (if json {
                OutcomeNote::Silent
            } else {
                OutcomeNote::NoChanges
            }),
            SnapshotOutcome::Interrupted => r matches Err(SnapshotError::Interrupted),
        },
{
    match outcome {
        SnapshotOutcome::Saved(_) => {
            if json {
                Ok(OutcomeNote::Json)
            } else {
                Ok(OutcomeNote::Tables)
            }
        },
        SnapshotOutcome::SkippedNoChanges => {
            if json {
                Ok(OutcomeNote::Silent)
            } else {
                Ok(OutcomeNote::NoChanges)
            }
        },
        SnapshotOutcome::Interrupted => Err(SnapshotError::Interrupted),
    }
}

/// What is printed of a snapshot.
#[derive(Debug)]
pub struct CliSummary {
    /// What stands above the changes.
    pub title: String,
    /// What stands above the columns of the changes.
    pub change_headings: Vec<String>,
    /// What changed since the parent: new, changed, deleted, unchanged.
    pub changes: Vec<Row>,
    /// The new snapshot, whose identifier is told. A dry run creates none.
    pub created: Option<ID>,
    /// What stands above the sizes.
    pub heading: String,
    /// What stands above the columns of the sizes.
    pub size_headings: Vec<String>,
    /// What was added: raw, compressed.
    pub sizes: Vec<Row>,
    /// The row below a line: all that was added.
    pub total: Row,
}

/// The changes as rows.
pub open spec fn change_rows(d: DiffCounts) -> Seq<report::RowView> {
    seq![
        report::row_of(
            "Files"@,
            seq![
                report::CellView::Count(d.new_files),
                report::CellView::Count(d.changed_files),
                report::CellView::Count(d.deleted_files),
                report::CellView::Count(d.unchanged_files),
            ],
        ),
        report::row_of(
            "Dirs"@,
            seq![
                report::CellView::Count(d.new_dirs),
                report::CellView::Count(d.changed_dirs),
                report::CellView::Count(d.deleted_dirs),
                report::CellView::Count(d.unchanged_dirs),
            ],
        ),
    ]
}

/// A row of sizes.
pub open spec fn size_row(label: Seq<char>, raw: u64, encoded: u64) -> report::RowView {
    report::row_of(label, seq![report::CellView::Size(raw), report::CellView::Size(encoded)])
}

/// Lays out what is printed of a snapshot.
pub fn show_cli_summary(completion: &SnapshotCompletion, dry_run: bool) -> (r: CliSummary)
    ensures
        r.title@ == "Changes since parent snapshot:"@,
        text::characters(r.change_headings@) == change_columns(),
        report::table(r.changes@) == change_rows(completion.summary.diff_counts),
        r.created == (if dry_run {
            None
        } else {
            Some(completion.snapshot_id)
        }),
        r.heading@ == (if dry_run {
            "This snapshot would add:"@
        } else {
            "This snapshot added:"@
        }),
        text::characters(r.size_headings@) == size_columns(),
        report::table(r.sizes@) == seq![
            size_row("Data"@, completion.summary.raw_bytes, completion.summary.encoded_bytes),
            size_row("Metadata"@, completion.summary.meta_raw_bytes, completion.summary.meta_encoded_bytes),
        ],
        r.total@ == size_row("Total"@, completion.summary.total_raw_bytes, completion.summary.total_encoded_bytes),
{
    let summary = &completion.summary;
    let d = &summary.diff_counts;
    let mut changes = report::no_rows();
    report::add_row(
        &mut changes,
        report::row4("Files", d.new_files, d.changed_files, d.deleted_files, d.unchanged_files),
    );
    report::add_row(
        &mut changes,
        report::row4("Dirs", d.new_dirs, d.changed_dirs, d.deleted_dirs, d.unchanged_dirs),
    );
    assert(report::table(changes@) =~= change_rows(summary.diff_counts));
    let mut sizes = report::no_rows();
    report::add_row(
        &mut sizes,
        report::row2("Data", Cell::Size(summary.raw_bytes), Cell::Size(summary.encoded_bytes)),
    );
    report::add_row(
        &mut sizes,
        report::row2("Metadata", Cell::Size(summary.meta_raw_bytes), Cell::Size(summary.meta_encoded_bytes)),
    );
    assert(report::table(sizes@) =~= seq![
        size_row("Data"@, summary.raw_bytes, summary.encoded_bytes),
        size_row("Metadata"@, summary.meta_raw_bytes, summary.meta_encoded_bytes),
    ]);
    let total = report::row2("Total", Cell::Size(summary.total_raw_bytes), Cell::Size(summary.total_encoded_bytes));
    let heading: String = if dry_run {
        "This snapshot would add:".to_owned()
    } else {
        "This snapshot added:".to_owned()
    };
    let created: Option<ID> = if dry_run {
        None
    } else {
        Some(completion.snapshot_id)
    };
    CliSummary {
        title: "Changes since parent snapshot:".to_owned(),
        change_headings: change_headings(),
        changes,
        created,
        heading,
        size_headings: size_headings(),
        sizes,
        total,
    }
}

/// What stands above the columns of the changes. The first column holds the labels.
pub open spec fn change_columns() -> Seq<Seq<char>> {
    seq![""@, "new"@, "changed"@, "deleted"@, "unchanged"@]
}

/// What stands above the columns of the changes.
pub fn change_headings() -> (r: Vec<String>)
    ensures
        text::characters(r@) == change_columns(),
{
    let mut r: Vec<String> = Vec::new();
    r.push("".to_owned());
    r.push("new".to_owned());
    r.push("changed".to_owned());
    r.push("deleted".to_owned());
    r.push("unchanged".to_owned());
    assert(text::characters(r@) =~= change_columns());
    r
}

/// What stands above the columns of the sizes. The first column holds the labels.
pub open spec fn size_columns() -> Seq<Seq<char>> {
    seq![""@, "Raw"@, "Compressed"@]
}

/// What stands above the columns of the sizes.
pub fn size_headings() -> (r: Vec<String>)
    ensures
        text::characters(r@) == size_columns(),
{
    let mut r: Vec<String> = Vec::new();
    r.push("".to_owned());
    r.push("Raw".to_owned());
    r.push("Compressed".to_owned());
    assert(text::characters(r@) =~= size_columns());
    r
}

/// The line that tells which snapshot was created. `id` is its identifier as it is to
/// be shown.
pub fn created_line(id: &str) -> (r: String)
    ensures
        r@ == "Created snapshot "@ + id@,
{
    text::join2("Created snapshot ", id)
}

/// A step of the command that can fail.
#[derive(Debug, Copy, Clone, PartialEq, Eq, Structural)]
pub enum SnapshotStep {
    /// Opening the storage.
    Backend,
    /// Preparing the writer of packs.
    PackSaver,
    /// Finishing what was written.
    Finalize,
}

/// What is said where a step fails.
pub open spec fn step_failed(step: SnapshotStep) -> Seq<char> {
    match step {
        SnapshotStep::Backend => "failed to initialize backend: "@,
        SnapshotStep::PackSaver => "failed to initialize pack saver: "@,
        SnapshotStep::Finalize => "failed to finalize snapshot: "@,
    }
}

/// The error of a step that fails.
pub fn step_error(step: SnapshotStep, why: &str) -> (r: SnapshotError)
    ensures
        r matches SnapshotError::SnapshotFailed(s) && s@ == step_failed(step) + why@,
{
    let what: &str = match step {
        SnapshotStep::Backend => "failed to initialize backend: ",
        SnapshotStep::PackSaver => "failed to initialize pack saver: ",
        SnapshotStep::Finalize => "failed to finalize snapshot: ",
    };
    SnapshotError::SnapshotFailed(text::join2(what, why))
}

/// The error of a file with paths to leave out that cannot be read.
pub fn exclude_file_error(why: &str) -> (r: SnapshotError)
    ensures
        r matches SnapshotError::SourcePathError(s) && s@ == "error reading exclude file: "@ + why@,
{
    SnapshotError::SourcePathError(text::join2("error reading exclude file: ", why))
}

// ---------------------------------------------------------------------------
// Laws
// ---------------------------------------------------------------------------

/// There is never a number of readers that is zero, neither by the command line nor
/// by the configuration file.
pub proof fn law_readers_are_positive(s: Seq<char>, opt: Option<usize>)
    ensures
        readers(s) matches Ok(n) ==> n > 0,
        readers_value(opt) matches Ok(Some(n)) ==> n > 0,
{
}

/// The mark that stands for no tags is never a tag, and neither is nothing.
pub proof fn law_empty_mark_is_no_tag(listed: Option<String>)
    ensures
        !snapshot_tags(listed).contains(tags::EMPTY_TAG_MARK@),
        !snapshot_tags(listed).contains(Seq::<char>::empty()),
{
}

/// The tags of a new snapshot are what the list names, all of it but for the mark that
/// stands for none: a text is a tag exactly where there is a list, the text is one of
/// its pieces without the white space around it, and it is neither empty nor the mark.
pub proof fn law_every_listed_tag_is_given(listed: Option<String>, tag: Seq<char>)
    ensures
        snapshot_tags(listed).contains(tag) <==> {
            &&& listed is Some
            &&& tag.len() > 0
            &&& tag != "[]"@
            &&& exists|i: int|
                0 <= i < text::pieces(listed.unwrap()@, ',').len() && tag == text::trimmed(
                    #[trigger] text::pieces(listed.unwrap()@, ',')[i],
                )
        },
{
    if let Some(list) = listed {
        tags::law_tags_are_the_pieces(list@, tag);
    }
}

/// What is new adds up: the total is data and metadata together, when the summary
/// is filled in and when the snapshot has been saved; and saving counts the files
/// of the snapshot and of the index as metadata, and nothing else.
pub proof fn law_totals_add_up(summary: SnapshotSummary, stats: RepoStats, file: SizePair)
    requires
        all_adds_up(stats, file),
    ensures
        ({
            let f = filled(summary, stats);
            let p = persisted(summary, stats, file);
            &&& f.total_raw_bytes == f.raw_bytes + f.meta_raw_bytes
            &&& f.total_encoded_bytes == f.encoded_bytes + f.meta_encoded_bytes
            &&& p.total_raw_bytes == p.raw_bytes + p.meta_raw_bytes
            &&& p.total_encoded_bytes == p.encoded_bytes + p.meta_encoded_bytes
            &&& p.meta_raw_bytes == f.meta_raw_bytes + file.raw + stats.index.raw
            &&& p.meta_encoded_bytes == f.meta_encoded_bytes + file.encoded + stats.index.encoded
            &&& p.raw_bytes == f.raw_bytes && p.encoded_bytes == f.encoded_bytes
            &&& p.processed_items_count == summary.processed_items_count
            &&& p.processed_bytes == summary.processed_bytes
            &&& p.diff_counts == summary.diff_counts
        }),
{
}

/// What the command line gives stays, and what it leaves open is taken from the
/// configuration file; the switches and the hooks are those of the command line
/// alone.
pub proof fn law_command_line_comes_first(cli: CmdArgs, cfg: CmdArgs)
    ensures
        ({
            let m = cli.merged(cfg);
            &&& m.paths == (if cli.paths@.len() > 0 {
                cli.paths
            } else {
                cfg.paths
            })
            &&& cli.as_root is Some ==> m.as_root == cli.as_root
            &&& cli.as_root is None ==> m.as_root == cfg.as_root
            &&& (cli.exclude matches Some(v) && v@.len() > 0) ==> m.exclude == cli.exclude
            &&& cli.exclude is None ==> m.exclude == cfg.exclude
            &&& cli.exclude_file is Some ==> m.exclude_file == cli.exclude_file
            &&& cli.exclude_file is None ==> m.exclude_file == cfg.exclude_file
            &&& cli.tags_str is Some ==> m.tags_str == cli.tags_str
            &&& cli.tags_str is None ==> m.tags_str == cfg.tags_str
            &&& cli.description is Some ==> m.description == cli.description
            &&& cli.description is None ==> m.description == cfg.description
            &&& m.no_parent == cli.no_parent
            &&& cli.no_scan is Some ==> m.no_scan == cli.no_scan
            &&& cli.no_scan is None ==> m.no_scan == cfg.no_scan
            &&& cli.skip_if_unchanged is Some ==> m.skip_if_unchanged == cli.skip_if_unchanged
            &&& cli.skip_if_unchanged is None ==> m.skip_if_unchanged == cfg.skip_if_unchanged
            &&& cli.parent is Some ==> m.parent == cli.parent
            &&& cli.parent is None ==> m.parent == cfg.parent
            &&& cli.num_readers is Some ==> m.num_readers == cli.num_readers
            &&& cli.num_readers is None ==> m.num_readers == cfg.num_readers
            &&& cli.num_packers is Some ==> m.num_packers == cli.num_packers
            &&& cli.num_packers is None ==> m.num_packers == cfg.num_packers
            &&& m.dry_run == cli.dry_run
            &&& cli.with_atime is Some ==> m.with_atime == cli.with_atime
            &&& cli.with_atime is None ==> m.with_atime == cfg.with_atime
            &&& m.stdin == cli.stdin
            &&& m.hook_args == cli.hook_args
        }),
{
}

/// A number of readers is accepted exactly where it is a number above zero that fits,
/// and is that number then, on the command line and in the configuration file alike.
pub proof fn law_readers_are_the_number(s: Seq<char>, n: usize, opt: Option<usize>)
    ensures
        readers(s) == Ok::<usize, Seq<char>>(n) <==> n > 0 && text::unsigned(s) == Some(n as nat),
        n > 0 ==> readers(text::decimal(n as nat)) == Ok::<usize, Seq<char>>(n),
        readers_value(opt) is Ok <==> opt != Some(0usize),
        readers_value(opt) is Ok ==> readers_value(opt)->Ok_0 == opt,
{
    text::law_decimal_reads_back(n as nat);
}

/// Credentials need not be typed in exactly where a file holds them, or else the
/// environment holds both the name and the password.
pub proof fn law_credentials_are_whole(auth_file: bool, username: bool, password: bool)
    ensures
        credentials_at_hand(true, username, password),
        credentials_at_hand(false, username, password) <==> username && password,
{
}

/// There is something to say of a source path exactly where it is not there as it should
/// be; the path and the reason are told.
pub proof fn law_only_paths_at_hand_are_fine(found: SourceFound)
    ensures
        source_fault(found) is None <==> found is Present,
        found matches SourceFound::Invalid { shown, why } ==> source_fault(found) == Some(
            "error processing path "@ + shown@ + ": "@ + why@,
        ),
        found matches SourceFound::Unreachable { shown, why } ==> source_fault(found) == Some(
            "error accessing path "@ + shown@ + ": "@ + why@,
        ),
        found matches SourceFound::Absent { shown } ==> source_fault(found) == Some(
            "source path does not exist: "@ + shown@,
        ),
{
}

/// The set of a list of paths holds each path of the list and no other, and two lists
/// hold the same texts where they have them at the same places.
pub proof fn law_every_path_is_in_the_set(paths: Seq<String>, others: Seq<String>, t: Seq<char>)
    ensures
        texts(paths).contains(t) <==> exists|i: int| 0 <= i < paths.len() && (#[trigger] paths[i])@ == t,
        same_texts(paths, others) <==> paths.len() == others.len() && forall|i: int|
            0 <= i < paths.len() ==> (#[trigger] paths[i])@ == others[i]@,
{
}

/// The filter goes by each path alone: of one path that is let through, that path is
/// left, and of any other nothing; and what is left of two lists, one behind the other,
/// is what is left of the first and what is left of the second.
pub proof fn law_each_path_is_filtered_by_itself(
    path: String,
    a: Seq<String>,
    of_a: Seq<bool>,
    b: Seq<String>,
    of_b: Seq<bool>,
)
    requires
        a.len() == of_a.len(),
        b.len() == of_b.len(),
    ensures
        let_through(Seq::<String>::empty(), Seq::<bool>::empty()) == Seq::<Seq<char>>::empty(),
        let_through(seq![path], seq![true]) == seq![path@],
        let_through(seq![path], seq![false]) == Seq::<Seq<char>>::empty(),
        let_through(a + b, of_a + of_b) == let_through(a, of_a) + let_through(b, of_b),
    decreases b.len(),
{
    let one = seq![path];
    let none = Seq::<String>::empty();
    reveal_with_fuel(let_through, 2);
    assert(one.drop_last() =~= none);
    assert(seq![true].drop_last() =~= Seq::<bool>::empty());
    assert(seq![false].drop_last() =~= Seq::<bool>::empty());
    assert(let_through(none, Seq::<bool>::empty()) =~= Seq::<Seq<char>>::empty());
    assert(let_through(one, seq![true]) =~= seq![path@]);
    if b.len() == 0 {
        assert(a + b =~= a);
        assert(of_a + of_b =~= of_a);
        assert(let_through(a, of_a) + let_through(b, of_b) =~= let_through(a, of_a));
    } else {
        law_each_path_is_filtered_by_itself(path, a, of_a, b.drop_last(), of_b.drop_last());
        assert((a + b).drop_last() =~= a + b.drop_last());
        assert((of_a + of_b).drop_last() =~= of_a + of_b.drop_last());
        assert((a + b).last() == b.last());
        assert((of_a + of_b).last() == of_b.last());
        assert(let_through(a + b, of_a + of_b) =~= let_through(a, of_a) + let_through(b, of_b));
    }
}

/// Each number of the summary is the one of the repository under that name: data as
/// data, metadata as metadata, and each as it is and as it is stored; and what was
/// processed is not touched.
pub proof fn law_numbers_keep_their_names(summary: SnapshotSummary, stats: RepoStats)
    ensures
        ({
            let f = filled(summary, stats);
            &&& f.raw_bytes == stats.data.raw
            &&& f.encoded_bytes == stats.data.encoded
            &&& f.meta_raw_bytes == stats.meta.raw
            &&& f.meta_encoded_bytes == stats.meta.encoded
            &&& f.data_blobs == stats.blobs
            &&& f.meta_blobs == stats.meta_blobs
            &&& f.processed_items_count == summary.processed_items_count
            &&& f.processed_bytes == summary.processed_bytes
            &&& f.diff_counts == summary.diff_counts
        }),
{
}

/// Saving changes the numbers of metadata and the totals, and no others.
pub proof fn law_saving_counts_only_metadata(summary: SnapshotSummary, stats: RepoStats, file: SizePair)
    ensures
        persisted(summary, stats, file).data_blobs == stats.blobs,
        persisted(summary, stats, file).meta_blobs == stats.meta_blobs,
        persisted(summary, stats, file).raw_bytes == stats.data.raw,
        persisted(summary, stats, file).encoded_bytes == stats.data.encoded,
{
}

/// What was written can be added up exactly where neither of the sums is too large.
pub proof fn law_sums_are_refused_only_where_too_large(stats: RepoStats, file: SizePair)
    ensures
        adds_up(stats) <==> stats.data.raw + stats.meta.raw <= u64::MAX && stats.data.encoded + stats.meta.encoded
            <= u64::MAX,
        all_adds_up(stats, file) <==> {
            &&& stats.data.raw + stats.meta.raw + file.raw + stats.index.raw <= u64::MAX
            &&& stats.data.encoded + stats.meta.encoded + file.encoded + stats.index.encoded <= u64::MAX
        },
        all_adds_up(stats, file) ==> adds_up(stats),
{
}

/// Each number of the tables stands in the row of what it counts and under the heading
/// that says so.
pub proof fn law_numbers_stand_under_their_headings(d: DiffCounts, label: Seq<char>, raw: u64, encoded: u64)
    ensures
        ({
            let files = change_rows(d)[0];
            let dirs = change_rows(d)[1];
            let row = size_row(label, raw, encoded);
            &&& change_rows(d).len() == 2
            &&& files.label == "Files"@ && dirs.label == "Dirs"@
            &&& files.cells.len() + 1 == change_columns().len() && dirs.cells.len() + 1 == change_columns().len()
            &&& change_columns().len() == 5 && change_columns()[0].len() == 0
            &&& change_columns()[1] == "new"@ && files.cells[0] == report::CellView::Count(d.new_files)
            &&& dirs.cells[0] == report::CellView::Count(d.new_dirs)
            &&& change_columns()[2] == "changed"@ && files.cells[1] == report::CellView::Count(d.changed_files)
            &&& dirs.cells[1] == report::CellView::Count(d.changed_dirs)
            &&& change_columns()[3] == "deleted"@ && files.cells[2] == report::CellView::Count(d.deleted_files)
            &&& dirs.cells[2] == report::CellView::Count(d.deleted_dirs)
            &&& change_columns()[4] == "unchanged"@ && files.cells[3] == report::CellView::Count(d.unchanged_files)
            &&& dirs.cells[3] == report::CellView::Count(d.unchanged_dirs)
            &&& row.label == label
            &&& row.cells.len() + 1 == size_columns().len()
            &&& size_columns().len() == 3 && size_columns()[0].len() == 0
            &&& size_columns()[1] == "Raw"@ && row.cells[0] == report::CellView::Size(raw)
            &&& size_columns()[2] == "Compressed"@ && row.cells[1] == report::CellView::Size(encoded)
        }),
{
    reveal_strlit("");
}

/// A list to leave out that has nothing in it gives way to one of the configuration
/// file, and stays where there is none.
pub proof fn law_an_empty_list_gives_way(cli: CmdArgs, cfg: CmdArgs)
    requires
        cli.exclude matches Some(v) && v@.len() == 0,
    ensures
        cfg.exclude is Some ==> cli.merged(cfg).exclude == cfg.exclude,
        cfg.exclude is None ==> cli.merged(cfg).exclude == cli.exclude,
{
}

/// What each error comes to: its exit code, which is never that of success, and what is
/// said of it, which ends with what went wrong.
pub proof fn law_errors_tell_what_went_wrong(e: SnapshotError)
    ensures
        0 < e.exit_code() < 256,
        e matches SnapshotError::BackendError(t) ==> e.exit_code() == 11 && e.message() == "backend error: "@ + t@,
        e matches SnapshotError::RepoOpenFail(t) ==> e.exit_code() == 12 && e.message()
            == "failed to open repository: "@ + t@,
        e matches SnapshotError::SourcePathError(t) ==> e.exit_code() == 20 && e.message()
            == "invalid source path: "@ + t@,
        e matches SnapshotError::ParentNotFound(t) ==> e.exit_code() == 21 && e.message()
            == "parent snapshot not found: "@ + t@,
        e matches SnapshotError::SnapshotFailed(t) ==> e.exit_code() == 30 && e.message()
            == "snapshot creation failed: "@ + t@,
        e is Interrupted ==> e.exit_code() == 130 && e.message() == "snapshot interrupted by user"@,
        e matches SnapshotError::Repo(t) ==> e.exit_code() == 1 && e.message() == t.displayed(),
        e matches SnapshotError::Io(t) ==> e.exit_code() == 1 && e.message() == t@,
{
}

/// Where a step fails it is told which one it was.
pub proof fn law_each_step_is_told(step: SnapshotStep, other: SnapshotStep)
    ensures
        step_failed(step) == step_failed(other) <==> step == other,
        step is Backend ==> step_failed(step) == "failed to initialize backend: "@,
        step is PackSaver ==> step_failed(step) == "failed to initialize pack saver: "@,
        step is Finalize ==> step_failed(step) == "failed to finalize snapshot: "@,
{
    reveal_strlit("failed to initialize backend: ");
    reveal_strlit("failed to initialize pack saver: ");
    reveal_strlit("failed to finalize snapshot: ");
    assert("failed to initialize backend: "@.len() != "failed to initialize pack saver: "@.len());
    assert("failed to initialize backend: "@.len() != "failed to finalize snapshot: "@.len());
    assert("failed to initialize pack saver: "@.len() != "failed to finalize snapshot: "@.len());
}

/// What is refused is told why: zero as such, and anything else as no number.
pub proof fn law_why_a_number_is_refused(s: Seq<char>, e: Seq<char>)
    ensures
        readers(s) == Err::<usize, Seq<char>>(e) ==> e == (if text::unsigned(s) == Some(0nat) {
            "readers must be greater than 0"@
        } else {
            "'"@ + s + "' is not a valid number"@
        }),
        readers_value(Some(0)) == Err::<Option<usize>, Seq<char>>("readers must be greater than 0"@),
{
}

/// A snapshot is left out only where that was asked for and nothing changed since its
/// parent: without being asked, without a parent and with any change it is saved.
pub proof fn law_only_what_did_not_change_is_left_out(parent_tree: Option<ID>, tree: ID, other: ID)
    ensures
        is_saved(false, parent_tree, tree),
        is_saved(true, None, tree),
        !is_saved(true, Some(tree), tree),
        tree != other ==> is_saved(true, Some(other), tree),
{
}

/// A snapshot is taken with exactly what the options give: the paths in their order, the
/// texts as they are, every switch as it is set and off where it is not, and the numbers
/// that are given, or else those that hold by default.
pub proof fn law_a_snapshot_is_taken_with_what_is_asked_for(
    args: CmdArgs,
    defaults: Defaults,
    r: SnapshotRunOptions,
)
    requires
        r.are_those_of(args, defaults),
    ensures
        r.paths@.len() == args.paths@.len(),
        forall|i: int| 0 <= i < r.paths@.len() ==> (#[trigger] r.paths@[i])@ == args.paths@[i]@,
        r.exclude is Some <==> args.exclude is Some,
        r.exclude matches Some(v) ==> v@.len() == args.exclude.unwrap()@.len() && forall|i: int|
            0 <= i < v@.len() ==> (#[trigger] v@[i])@ == args.exclude.unwrap()@[i]@,
        r.exclude_file == args.exclude_file,
        r.tags == args.tags_str,
        r.description == args.description,
        r.stdin == args.stdin,
        r.as_root <==> args.as_root == Some(true),
        r.no_scan <==> args.no_scan == Some(true),
        r.skip_if_unchanged <==> args.skip_if_unchanged == Some(true),
        r.with_atime <==> args.with_atime == Some(true),
        args.num_readers is Some ==> r.num_readers == args.num_readers.unwrap(),
        args.num_readers is None ==> r.num_readers == defaults.snapshot_readers,
        args.num_packers is Some ==> r.num_packers == args.num_packers.unwrap(),
        args.num_packers is None ==> r.num_packers == defaults.snapshot_packers,
{
}

/// What is archived: from stdin one file, by itself and without a parent; else the paths
/// that are left, under their root, without what is to be left out, and with a parent
/// where there is one.
pub proof fn law_what_is_archived(
    r: ArchivePlan,
    options: SnapshotRunOptions,
    paths: Vec<String>,
    common_root: String,
    exclude: Option<Vec<String>>,
    has_parent: bool,
)
    requires
        is_plan_for(r, options, paths, common_root, exclude, has_parent),
    ensures
        r.stdin == options.stdin,
        r.use_parent <==> has_parent && !options.stdin,
        r.no_scan <==> options.no_scan || options.stdin,
        r.with_atime <==> options.with_atime && !options.stdin,
        !options.stdin ==> r.paths == paths && r.root == common_root,
        options.stdin ==> r.paths@.len() == 1 && r.paths@[0]@ == "/stdin"@ && r.root@ == "/"@,
        !options.stdin && exclude is Some ==> r.exclude == exclude.unwrap(),
        options.stdin || exclude is None ==> r.exclude@.len() == 0,
{
}

} // verus!
