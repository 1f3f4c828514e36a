//! `restore`: bringing a snapshot back.

use vstd::prelude::*;
use crate::access::Needs;
use crate::errors::{MapacheError, ToExitCode};
use crate::global;
use crate::global::HookArgs;
use crate::merge;
use crate::merge::Merge;
use crate::options::UseSnapshot;
use crate::text;

verus! {

/// Why a snapshot could not be restored.
#[derive(Debug)]
pub enum RestoreError {
    /// The repository could not be opened.
    RepoOpenFail(String),
    /// There is no such snapshot.
    SnapshotNotFound(String),
    /// The target path is of no use.
    TargetError(String),
    /// The work itself failed.
    RestoreFailed(String),
    /// The user broke it off.
    Interrupted,
    /// An error of the repository.
    Repo(MapacheError),
    /// An error of the file system.
    Io(String),
}

impl ToExitCode for RestoreError {
    open spec fn exit_code(&self) -> i32 {
        match self {
            RestoreError::RepoOpenFail(_) => 10,
            RestoreError::SnapshotNotFound(_) => 20,
            RestoreError::TargetError(_) => 21,
            RestoreError::RestoreFailed(_) => 30,
            RestoreError::Interrupted => 130,
            RestoreError::Repo(_) => 1,
            RestoreError::Io(_) => 1,
        }
    }

    open spec fn message(&self) -> Seq<char> {
        match self {
            RestoreError::RepoOpenFail(s) => "failed to open repository: "@ + s@,
            RestoreError::SnapshotNotFound(s) => "snapshot not found: "@ + s@,
            RestoreError::TargetError(s) => "target path error: "@ + s@,
            RestoreError::RestoreFailed(s) => "restore failed: "@ + s@,
            RestoreError::Interrupted => "restore interrupted by user"@,
            RestoreError::Repo(e) => e.displayed(),
            RestoreError::Io(s) => s@,
        }
    }

    fn to_exit_code(&self) -> i32 {
        match self {
            RestoreError::RepoOpenFail(_) => 10,
            RestoreError::SnapshotNotFound(_) => 20,
            RestoreError::TargetError(_) => 21,
            RestoreError::RestoreFailed(_) => 30,
            RestoreError::Interrupted => 130,
            RestoreError::Repo(_) => 1,
            RestoreError::Io(_) => 1,
        }
    }

    fn to_text(&self) -> String {
        match self {
            RestoreError::RepoOpenFail(s) => text::join2("failed to open repository: ", s.as_str()),
            RestoreError::SnapshotNotFound(s) => text::join2("snapshot not found: ", s.as_str()),
            RestoreError::TargetError(s) => text::join2("target path error: ", s.as_str()),
            RestoreError::RestoreFailed(s) => text::join2("restore failed: ", s.as_str()),
            RestoreError::Interrupted => "restore interrupted by user".to_owned(),
            RestoreError::Repo(e) => e.shown(),
            RestoreError::Io(s) => s.clone(),
        }
    }
}

// ---------------------------------------------------------------------------
// Options
// ---------------------------------------------------------------------------

/// Method for conflict resolution in case a file or directory already exists in
/// the target location.
#[derive(Debug, Copy, Clone, PartialEq, Eq, Structural)]
pub enum Strategy {
    /// Overwrites the item in the target location with the node from the snapshot.
    Overwrite,
    /// Skips restoring and keeps the local item.
    Skip,
    /// Keeps the item with the more recent modified time.
    Newer,
    /// Terminates the command with an error.
    Fail,
}

impl Strategy {
    /// The text that stands for a strategy.
    pub open spec fn named(self) -> Seq<char> {
        match self {
            Strategy::Overwrite => "overwrite"@,
            Strategy::Skip => "skip"@,
            Strategy::Newer => "newer"@,
            Strategy::Fail => "fail"@,
        }
    }

    /// What a text reads as: one of the names, whatever the case of its letters.
    pub open spec fn read(s: Seq<char>) -> Result<Strategy, Seq<char>> {
        if text::is_word(s, "overwrite"@) {
            Ok(Strategy::Overwrite)
        } else if text::is_word(s, "skip"@) {
            Ok(Strategy::Skip)
        } else if text::is_word(s, "newer"@) {
            Ok(Strategy::Newer)
        } else if text::is_word(s, "fail"@) {
            Ok(Strategy::Fail)
        } else {
            Err("Invalid strategy: "@ + s)
        }
    }

    /// The text that stands for this strategy.
    pub fn to_text(&self) -> (r: String)
        ensures
            r@ == self.named(),
    {
        match self {
            Strategy::Overwrite => "overwrite".to_owned(),
            Strategy::Skip => "skip".to_owned(),
            Strategy::Newer => "newer".to_owned(),
            Strategy::Fail => "fail".to_owned(),
        }
    }

    /// Reads a strategy.
    pub fn from_str(s: &str) -> (r: Result<Strategy, String>)
        ensures
            text::agrees(r, Strategy::read(s@)),
    {
        if text::word_is(s, "overwrite") {
            Ok(Strategy::Overwrite)
        } else if text::word_is(s, "skip") {
            Ok(Strategy::Skip)
        } else if text::word_is(s, "newer") {
            Ok(Strategy::Newer)
        } else if text::word_is(s, "fail") {
            Ok(Strategy::Fail)
        } else {
            Err(text::join2("Invalid strategy: ", s))
        }
    }
}

/// Reads a strategy of the configuration file, if there is one.
pub fn deserialize_strategy_opt(opt: Option<String>) -> (r: Result<Option<Strategy>, String>)
    ensures
        text::agrees(r, text::optional(opt, |s: Seq<char>| Strategy::read(s))),
{
    match opt {
        None => Ok(None),
        Some(s) => match Strategy::from_str(s.as_str()) {
            Ok(v) => Ok(Some(v)),
            Err(e) => Err(e),
        },
    }
}

/// The options of the command.
#[derive(Debug, Clone, Default)]
pub struct CmdArgs {
    /// The snapshot to restore.
    pub snapshot: UseSnapshot,
    /// A path where the files will be restored.
    pub target: Option<String>,
    /// A list of paths to restore.
    pub include_paths: Option<Vec<String>>,
    /// A file with a list of paths to restore, one per line.
    pub include_file: Option<String>,
    /// A list of paths to leave out.
    pub exclude: Option<Vec<String>>,
    /// A file with a list of paths to leave out, one per line.
    pub exclude_file: Option<String>,
    /// Strip the longest common prefix from all restored routes.
    pub strip_prefix: Option<bool>,
    /// Method for conflict resolution.
    pub strategy: Option<Strategy>,
    /// Delete files in the target directory that are not present in the snapshot.
    pub delete: Option<bool>,
    /// Do not keep the root of the target.
    pub no_preserve_root: Option<bool>,
    /// Quit immediately if a restore error occurs.
    pub quit_on_error: Option<bool>,
    /// Create sparse files instead of preallocating them.
    pub sparse: Option<bool>,
    /// Verify existing files by content even if their times match.
    pub verify: Option<bool>,
    /// Maximum number of files per batch.
    pub batch_size: Option<usize>,
    /// Dry run.
    pub dry_run: bool,
    /// Hooks of the command line.
    pub hook_args: HookArgs,
}

impl CmdArgs {
    /// The options that a template of the configuration file shows.
    pub fn template() -> (r: CmdArgs)
        ensures
            r.snapshot is Latest,
            r.target matches Some(s) && s@ == "/tmp/restore"@,
            r.include_paths is None,
            r.include_file is None,
            r.exclude matches Some(v) && v@.len() == 1 && v@[0]@ == "**/node_modules"@,
            r.exclude_file is None,
            r.strip_prefix == Some(true),
            r.strategy == Some(Strategy::Fail),
            r.delete == Some(false),
            r.batch_size is None,
            !r.dry_run,
            r.no_preserve_root == Some(false),
            r.quit_on_error == Some(false),
            r.sparse == Some(false),
            r.verify == Some(true),
            r.hook_args.pre_hook is None,
            r.hook_args.post_hook is None,
    {
        let mut exclude: Vec<String> = Vec::new();
        exclude.push("**/node_modules".to_owned());
        CmdArgs {
            snapshot: UseSnapshot::Latest,
            target: Some("/tmp/restore".to_owned()),
            include_paths: None,
            include_file: None,
            exclude: Some(exclude),
            exclude_file: None,
            strip_prefix: Some(true),
            strategy: Some(Strategy::Fail),
            delete: Some(false),
            batch_size: None,
            dry_run: false,
            no_preserve_root: Some(false),
            quit_on_error: Some(false),
            sparse: Some(false),
            verify: Some(true),
            hook_args: HookArgs::default(),
        }
    }

    /// How the command wants its repository: it reads it, on a dry run too.
    pub fn needs(&self) -> (r: Needs)
        ensures
            r == (Needs { dry_backend: false, exclusive_lock: false }),
    {
        Needs { dry_backend: false, exclusive_lock: false }
    }
}

impl Merge for CmdArgs {
    open spec fn merged(self, other: Self) -> Self {
        CmdArgs {
            snapshot: self.snapshot,
            target: merge::first(self.target, other.target),
            include_paths: merge::first(self.include_paths, other.include_paths),
            include_file: merge::first(self.include_file, other.include_file),
            exclude: merge::first(self.exclude, other.exclude),
            exclude_file: merge::first(self.exclude_file, other.exclude_file),
            strip_prefix: merge::first(self.strip_prefix, other.strip_prefix),
            strategy: merge::first(self.strategy, other.strategy),
            delete: merge::first(self.delete, other.delete),
            no_preserve_root: merge::first(self.no_preserve_root, other.no_preserve_root),
            quit_on_error: merge::first(self.quit_on_error, other.quit_on_error),
            sparse: merge::first(self.sparse, other.sparse),
            verify: merge::first(self.verify, other.verify),
            batch_size: merge::first(self.batch_size, other.batch_size),
            dry_run: self.dry_run,
            hook_args: self.hook_args,
        }
    }

    fn merge(&mut self, other: Self) {
        merge::merge_opt(&mut self.target, other.target);
        merge::merge_opt(&mut self.include_paths, other.include_paths);
        merge::merge_opt(&mut self.include_file, other.include_file);
        merge::merge_opt(&mut self.exclude, other.exclude);
        merge::merge_opt(&mut self.exclude_file, other.exclude_file);
        merge::merge_opt(&mut self.strip_prefix, other.strip_prefix);
        merge::merge_opt(&mut self.strategy, other.strategy);
        merge::merge_opt(&mut self.delete, other.delete);
        merge::merge_opt(&mut self.no_preserve_root, other.no_preserve_root);
        merge::merge_opt(&mut self.quit_on_error, other.quit_on_error);
        merge::merge_opt(&mut self.sparse, other.sparse);
        merge::merge_opt(&mut self.verify, other.verify);
        merge::merge_opt(&mut self.batch_size, other.batch_size);
    }
}

/// What a number of files per batch reads as.
pub open spec fn batch_size(s: Seq<char>) -> Result<usize, Seq<char>> {
    match text::unsigned(s) {
        Some(n) => if n > usize::MAX {
            Err("'"@ + s + "' is not a valid number"@)
        } else if n == 0 {
            Err("batch-size must be greater than 0"@)
        } else {
            Ok(n as usize)
        },
        None => Err("'"@ + s + "' is not a valid number"@),
    }
}

/// Reads a number of files per batch.
pub fn parse_batch_size(s: &str) -> (r: Result<usize, String>)
    ensures
        text::agrees(r, batch_size(s@)),
{
    match text::parse_unsigned(s, usize::MAX as u128) {
        Some(n) => {
            if n == 0 {
                Err("batch-size must be greater than 0".to_owned())
            } else {
                Ok(n as usize)
            }
        },
        None => Err(text::join3("'", s, "' is not a valid number")),
    }
}

/// What a number of files per batch in the configuration file comes to.
pub open spec fn batch_size_value(opt: Option<usize>) -> Result<Option<usize>, Seq<char>> {
    if opt == Some(0usize) {
        Err("batch-size must be greater than 0"@)
    } else {
        Ok(opt)
    }
}

/// Takes a number of files per batch from the configuration file.
pub fn deserialize_batch_size_opt(opt: Option<usize>) -> (r: Result<Option<usize>, String>)
    ensures
        text::agrees(r, batch_size_value(opt)),
{
    match opt {
        Some(0) => Err("batch-size must be greater than 0".to_owned()),
        other => Ok(other),
    }
}

// ---------------------------------------------------------------------------
// The work
// ---------------------------------------------------------------------------

/// The snapshot to restore, or the error where there is none.
pub fn snapshot_found<T>(found: Result<Option<T>, MapacheError>) -> (r: Result<T, RestoreError>)
    ensures
        match found {
            Ok(Some(v)) => r matches Ok(w) && w == v,
            Ok(None) => r matches Err(RestoreError::SnapshotNotFound(s)) && s@
                == "no snapshot matches the given identifier"@,
            Err(e) => r matches Err(RestoreError::SnapshotNotFound(s)) && s@ == e.said(),
        },
{
    match found {
        Ok(Some(v)) => Ok(v),
        Ok(None) => Err(RestoreError::SnapshotNotFound("no snapshot matches the given identifier".to_owned())),
        Err(e) => Err(RestoreError::SnapshotNotFound(e.inner())),
    }
}

/// What a restore is run with.
#[derive(Debug)]
pub struct RestoreSettings {
    /// A path where the files will be restored.
    pub target: String,
    /// Method for conflict resolution.
    pub strategy: Strategy,
    /// Dry run.
    pub dry_run: bool,
    /// Delete files in the target directory that are not present in the snapshot.
    pub delete: bool,
    /// Do not keep the root of the target.
    pub no_preserve_root: bool,
    /// Quit immediately if a restore error occurs.
    pub quit_on_error: bool,
    /// Reserve the space of files before they are written.
    pub preallocate: bool,
    /// Verify existing files by content even if their times match.
    pub verify: bool,
    /// Maximum number of files per batch.
    pub batch_size: Option<usize>,
    /// Strip the longest common prefix from all restored routes.
    pub strip_prefix: bool,
}

/// What a restore into a target is run with: what the options say, and what holds
/// where they say nothing.
pub open spec fn settings_for(args: CmdArgs, target: String) -> RestoreSettings {
    RestoreSettings {
        target,
        strategy: global::or_else(args.strategy, Strategy::Fail),
        dry_run: args.dry_run,
        delete: global::or_else(args.delete, false),
        no_preserve_root: global::or_else(args.no_preserve_root, false),
        quit_on_error: global::or_else(args.quit_on_error, false),
        preallocate: !global::or_else(args.sparse, false),
        verify: global::or_else(args.verify, false),
        batch_size: args.batch_size,
        strip_prefix: global::or_else(args.strip_prefix, false),
    }
}

/// What a restore is run with. There has to be a target.
pub fn restore_settings(args: &CmdArgs) -> (r: Result<RestoreSettings, RestoreError>)
    ensures
        match args.target {
            Some(target) => r matches Ok(v) && v == settings_for(*args, target),
            None => r matches Err(RestoreError::TargetError(s)) && s@
                == "target path is required. use --target or set it in config file."@,
        },
{
    match &args.target {
        Some(target) => Ok(
            RestoreSettings {
                target: target.clone(),
                strategy: args.strategy.unwrap_or(Strategy::Fail),
                dry_run: args.dry_run,
                delete: args.delete.unwrap_or(false),
                no_preserve_root: args.no_preserve_root.unwrap_or(false),
                quit_on_error: args.quit_on_error.unwrap_or(false),
                preallocate: !args.sparse.unwrap_or(false),
                verify: args.verify.unwrap_or(false),
                batch_size: args.batch_size,
                strip_prefix: args.strip_prefix.unwrap_or(false),
            },
        ),
        None => Err(
            RestoreError::TargetError("target path is required. use --target or set it in config file.".to_owned()),
        ),
    }
}

/// The error of a target path that cannot be made absolute.
pub fn invalid_target(why: &str) -> (r: RestoreError)
    ensures
        r matches RestoreError::TargetError(s) && s@ == "invalid target path: "@ + why@,
{
    RestoreError::TargetError(text::join2("invalid target path: ", why))
}

/// The prefix that is stripped from all restored routes: the one that the chosen
/// paths have in common, where that is asked for and paths were chosen.
pub fn prefix_to_strip(settings: &RestoreSettings, common: Option<String>) -> (r: Option<String>)
    ensures
        r == (if settings.strip_prefix {
            common
        } else {
            None
        }),
{
    if settings.strip_prefix {
        common
    } else {
        None
    }
}

/// A part of the work that has ended, and what it came to.
#[derive(Debug)]
pub struct PartEnded {
    /// Whether the end is announced to those who watch.
    pub announce: bool,
    /// What the part came to.
    pub result: Result<(), RestoreError>,
}

/// What the restoring of the files came to. Its end is announced unless it failed
/// of itself.
pub fn restore_ended(result: Result<(), MapacheError>, interrupted: bool) -> (r: PartEnded)
    ensures
        match result {
            Ok(_) => r.announce && r.result is Ok,
            Err(e) => if interrupted {
                r.announce && (r.result matches Err(RestoreError::Interrupted))
            } else {
                !r.announce && (r.result matches Err(RestoreError::RestoreFailed(s)) && s@ == e.said())
            },
        },
{
    match result {
        Ok(_) => PartEnded { announce: true, result: Ok(()) },
        Err(e) => {
            if interrupted {
                PartEnded { announce: true, result: Err(RestoreError::Interrupted) }
            } else {
                PartEnded { announce: false, result: Err(RestoreError::RestoreFailed(e.inner())) }
            }
        },
    }
}

/// Whether files that are not in the snapshot are deleted next, or the error of the
/// restoring, after which nothing is.
pub open spec fn deleting_follows(settings: RestoreSettings, ended: PartEnded) -> Result<bool, RestoreError> {
    match ended.result {
        Err(e) => Err(e),
        Ok(_) => Ok(settings.delete),
    }
}

/// Decides what follows the restoring of the files: true where those that are not in
/// the snapshot are to be deleted.
pub fn after_restore(settings: &RestoreSettings, ended: PartEnded) -> (r: Result<bool, RestoreError>)
    ensures
        r == deleting_follows(*settings, ended),
{
    match ended.result {
        Err(e) => Err(e),
        Ok(_) => Ok(settings.delete),
    }
}

/// What the deleting is run with.
#[derive(Debug, Copy, Clone, PartialEq, Eq, Structural)]
pub struct SyncOpts {
    /// Whether nothing is to be deleted, only told of.
    pub dry_run: bool,
    /// Do not keep the root of the target.
    pub no_preserve_root: bool,
}

/// What the deleting is run with.
pub open spec fn sync_opts_of(settings: RestoreSettings) -> SyncOpts {
    SyncOpts { dry_run: settings.dry_run, no_preserve_root: settings.no_preserve_root }
}

/// What the deleting is run with: a dry run stays one.
pub fn sync_opts(settings: &RestoreSettings) -> (r: SyncOpts)
    ensures
        r == sync_opts_of(*settings),
{
    SyncOpts { dry_run: settings.dry_run, no_preserve_root: settings.no_preserve_root }
}

/// What the deleting of the files that are not in the snapshot came to.
pub fn delete_ended(result: Result<(), MapacheError>, interrupted: bool) -> (r: Result<(), RestoreError>)
    ensures
        match result {
            Ok(_) => r is Ok,
            Err(e) => if interrupted {
                r matches Err(RestoreError::Interrupted)
            } else {
                r matches Err(RestoreError::RestoreFailed(s)) && s@ == "delete failed: "@ + e.said()
            },
        },
{
    match result {
        Ok(_) => Ok(()),
        Err(e) => {
            if interrupted {
                Err(RestoreError::Interrupted)
            } else {
                Err(RestoreError::RestoreFailed(text::join2("delete failed: ", e.inner().as_str())))
            }
        },
    }
}

/// What there is to say of a restore, each number as it is to be printed.
#[derive(Debug)]
pub struct RestoreTexts {
    /// What stands in front.
    pub prefix: String,
    /// The number of items.
    pub items: String,
    /// Their size.
    pub bytes: String,
    /// The time taken.
    pub duration: String,
    /// The number of errors.
    pub errors: String,
    /// The number of warnings.
    pub warnings: String,
    /// The size of what was skipped.
    pub skipped: String,
}

/// The last line of a restore, as far as it does not depend on what was skipped.
pub open spec fn restored_line(t: RestoreTexts) -> Seq<char> {
    t.prefix@ + "Restored "@ + t.items@ + " ("@ + t.bytes@ + ") in "@ + t.duration@ + " with "@ + t.errors@ + " and "@
        + t.warnings@
}

/// The last line of a restore. What was skipped is told where there is any.
pub fn closing_line(t: &RestoreTexts, skipped_bytes: u64) -> (r: String)
    ensures
        r@ == (if skipped_bytes > 0 {
            restored_line(*t) + ", "@ + t.skipped@ + " skipped"@
        } else {
            restored_line(*t)
        }),
{
    let mut out = t.prefix.clone();
    out.append("Restored ");
    out.append(t.items.as_str());
    out.append(" (");
    out.append(t.bytes.as_str());
    out.append(") in ");
    out.append(t.duration.as_str());
    out.append(" with ");
    out.append(t.errors.as_str());
    out.append(" and ");
    out.append(t.warnings.as_str());
    if skipped_bytes > 0 {
        out.append(", ");
        out.append(t.skipped.as_str());
        out.append(" skipped");
    }
    out
}

// ---------------------------------------------------------------------------
// Laws
// ---------------------------------------------------------------------------

/// The text that stands for a strategy reads as that strategy.
pub proof fn law_strategy_reads_back(v: Strategy)
    ensures
        Strategy::read(v.named()) == Ok::<Strategy, Seq<char>>(v),
{
    reveal_strlit("overwrite");
    reveal_strlit("skip");
    reveal_strlit("newer");
    reveal_strlit("fail");
    assert(text::is_word(v.named(), v.named()));
    if v is Fail {
        assert(text::small(v.named()[0]) != "skip"@[0]);
    }
}

/// Files are deleted only where that was asked for, after a restoring that went well,
/// and on a dry run only for show.
pub proof fn law_deleting_follows_a_good_restore(args: CmdArgs, target: String, ended: PartEnded)
    ensures
        ({
            let settings = settings_for(args, target);
            &&& deleting_follows(settings, ended) == Ok::<bool, RestoreError>(true) <==> ended.result is Ok && args.delete
                == Some(true)
            &&& ended.result matches Err(e) ==> deleting_follows(settings, ended) == Err::<bool, RestoreError>(e)
            &&& sync_opts_of(settings).dry_run == args.dry_run
        }),
{
}

/// No batch is of zero files, neither by the command line nor by the configuration
/// file.
pub proof fn law_batch_size_is_positive(s: Seq<char>, opt: Option<usize>)
    ensures
        batch_size(s) matches Ok(n) ==> n > 0,
        batch_size_value(opt) matches Ok(Some(n)) ==> n > 0,
{
}

/// What the command line gives stays, and what it leaves open is taken from the
/// configuration file; the snapshot, the dry run and the hooks are those of the
/// command line alone.
pub proof fn law_command_line_comes_first(cli: CmdArgs, cfg: CmdArgs)
    ensures
        ({
            let m = cli.merged(cfg);
            &&& m.snapshot == cli.snapshot
            &&& cli.target is Some ==> m.target == cli.target
            &&& cli.target is None ==> m.target == cfg.target
            &&& cli.include_paths is Some ==> m.include_paths == cli.include_paths
            &&& cli.include_paths is None ==> m.include_paths == cfg.include_paths
            &&& cli.include_file is Some ==> m.include_file == cli.include_file
            &&& cli.include_file is None ==> m.include_file == cfg.include_file
            &&& cli.exclude is Some ==> m.exclude == cli.exclude
            &&& cli.exclude is None ==> m.exclude == cfg.exclude
            &&& cli.exclude_file is Some ==> m.exclude_file == cli.exclude_file
            &&& cli.exclude_file is None ==> m.exclude_file == cfg.exclude_file
            &&& cli.strip_prefix is Some ==> m.strip_prefix == cli.strip_prefix
            &&& cli.strip_prefix is None ==> m.strip_prefix == cfg.strip_prefix
            &&& cli.strategy is Some ==> m.strategy == cli.strategy
            &&& cli.strategy is None ==> m.strategy == cfg.strategy
            &&& cli.delete is Some ==> m.delete == cli.delete
            &&& cli.delete is None ==> m.delete == cfg.delete
            &&& cli.no_preserve_root is Some ==> m.no_preserve_root == cli.no_preserve_root
            &&& cli.no_preserve_root is None ==> m.no_preserve_root == cfg.no_preserve_root
            &&& cli.quit_on_error is Some ==> m.quit_on_error == cli.quit_on_error
            &&& cli.quit_on_error is None ==> m.quit_on_error == cfg.quit_on_error
            &&& cli.sparse is Some ==> m.sparse == cli.sparse
            &&& cli.sparse is None ==> m.sparse == cfg.sparse
            &&& cli.verify is Some ==> m.verify == cli.verify
            &&& cli.verify is None ==> m.verify == cfg.verify
            &&& cli.batch_size is Some ==> m.batch_size == cli.batch_size
            &&& cli.batch_size is None ==> m.batch_size == cfg.batch_size
            &&& m.dry_run == cli.dry_run
            &&& m.hook_args == cli.hook_args
        }),
{
}

/// A restore is run with exactly what the options give: the conflict strategy that is
/// asked for, and `fail` where none is; every switch as it is set, and off where it is
/// not; the batch size that is given, if one is; and space is reserved for files unless
/// they are to be sparse.
pub proof fn law_a_restore_is_run_with_what_is_asked_for(args: CmdArgs, target: String)
    ensures
        ({
            let s = settings_for(args, target);
            &&& s.target == target
            &&& args.strategy is Some ==> s.strategy == args.strategy.unwrap()
            &&& args.strategy is None ==> s.strategy is Fail
            &&& args.delete is Some ==> s.delete == args.delete.unwrap()
            &&& args.delete is None ==> !s.delete
            &&& args.no_preserve_root is Some ==> s.no_preserve_root == args.no_preserve_root.unwrap()
            &&& args.no_preserve_root is None ==> !s.no_preserve_root
            &&& args.quit_on_error is Some ==> s.quit_on_error == args.quit_on_error.unwrap()
            &&& args.quit_on_error is None ==> !s.quit_on_error
            &&& args.verify is Some ==> s.verify == args.verify.unwrap()
            &&& args.verify is None ==> !s.verify
            &&& args.strip_prefix is Some ==> s.strip_prefix == args.strip_prefix.unwrap()
            &&& args.strip_prefix is None ==> !s.strip_prefix
            &&& s.preallocate <==> args.sparse != Some(true)
            &&& s.batch_size == args.batch_size
            &&& s.dry_run == args.dry_run
            &&& sync_opts_of(s).no_preserve_root == s.no_preserve_root
            &&& sync_opts_of(s).dry_run == s.dry_run
        }),
{
}

/// After a restoring that went well the deleting is decided by what was asked for, and
/// that is no error.
pub proof fn law_a_good_restore_is_no_error(settings: RestoreSettings, ended: PartEnded)
    ensures
        ended.result is Ok <==> deleting_follows(settings, ended) is Ok,
        ended.result is Ok ==> deleting_follows(settings, ended)->Ok_0 == settings.delete,
{
}

/// A text reads as a strategy exactly where it is the name of it, in letters of either
/// case; any other text is refused, and shown.
pub proof fn law_only_names_are_strategies(s: Seq<char>, v: Strategy)
    ensures
        Strategy::read(s) == Ok::<Strategy, Seq<char>>(v) <==> text::is_word(s, v.named()),
        v.named() == (match v {
            Strategy::Overwrite => "overwrite"@,
            Strategy::Skip => "skip"@,
            Strategy::Newer => "newer"@,
            Strategy::Fail => "fail"@,
        }),
        Strategy::read(s) matches Err(e) ==> e == "Invalid strategy: "@ + s,
{
    reveal_strlit("overwrite");
    reveal_strlit("skip");
    reveal_strlit("newer");
    reveal_strlit("fail");
    if text::is_word(s, "fail"@) {
        assert(text::small(s[0]) == 'f');
    }
    if text::is_word(s, "skip"@) {
        assert(text::small(s[0]) == 's');
    }
}

/// A number of files per batch is accepted exactly where it is a number above zero that
/// fits, and is that number then, on the command line and in the configuration file
/// alike.
pub proof fn law_batch_size_is_the_number(s: Seq<char>, n: usize, opt: Option<usize>)
    ensures
        batch_size(s) == Ok::<usize, Seq<char>>(n) <==> n > 0 && text::unsigned(s) == Some(n as nat),
        n > 0 ==> batch_size(text::decimal(n as nat)) == Ok::<usize, Seq<char>>(n),
        batch_size_value(opt) is Ok <==> opt != Some(0usize),
        batch_size_value(opt) is Ok ==> batch_size_value(opt)->Ok_0 == opt,
{
    text::law_decimal_reads_back(n as nat);
}

/// What each error comes to: its exit code, which is never that of success, and what is
/// said of it, which ends with what went wrong.
pub proof fn law_errors_tell_what_went_wrong(e: RestoreError)
    ensures
        0 < e.exit_code() < 256,
        e matches RestoreError::RepoOpenFail(t) ==> e.exit_code() == 10 && e.message()
            == "failed to open repository: "@ + t@,
        e matches RestoreError::SnapshotNotFound(t) ==> e.exit_code() == 20 && e.message()
            == "snapshot not found: "@ + t@,
        e matches RestoreError::TargetError(t) ==> e.exit_code() == 21 && e.message() == "target path error: "@ + t@,
        e matches RestoreError::RestoreFailed(t) ==> e.exit_code() == 30 && e.message() == "restore failed: "@ + t@,
        e is Interrupted ==> e.exit_code() == 130 && e.message() == "restore interrupted by user"@,
        e matches RestoreError::Repo(t) ==> e.exit_code() == 1 && e.message() == t.displayed(),
        e matches RestoreError::Io(t) ==> e.exit_code() == 1 && e.message() == t@,
{
}

/// The last line of a restore tells what was restored, how long it took and what went
/// wrong, in this order.
pub proof fn law_what_the_last_line_tells(t: RestoreTexts)
    ensures
        restored_line(t) == t.prefix@ + ("Restored "@ + t.items@ + " ("@ + t.bytes@ + ")"@) + (" in "@ + t.duration@) + (
        " with "@ + t.errors@ + " and "@ + t.warnings@),
{
    reveal_strlit(") in ");
    reveal_strlit(")");
    reveal_strlit(" in ");
    assert(") in "@ =~= ")"@ + " in "@);
    assert(restored_line(t) =~= t.prefix@ + ("Restored "@ + t.items@ + " ("@ + t.bytes@ + ")"@) + (" in "@
        + t.duration@) + (" with "@ + t.errors@ + " and "@ + t.warnings@));
}

/// What is refused is told why: zero as such, and anything else as no number.
pub proof fn law_why_a_number_is_refused(s: Seq<char>, e: Seq<char>)
    ensures
        batch_size(s) == Err::<usize, Seq<char>>(e) ==> e == (if text::unsigned(s) == Some(0nat) {
            "batch-size must be greater than 0"@
        } else {
            "'"@ + s + "' is not a valid number"@
        }),
        batch_size_value(Some(0)) == Err::<Option<usize>, Seq<char>>("batch-size must be greater than 0"@),
{
}

} // verus!
