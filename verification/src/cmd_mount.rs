//! `mount`: where a repository or a bundle is mounted.

use vstd::prelude::*;
use crate::access::Needs;
use crate::errors::{MapacheError, ToExitCode};
use crate::sizes::Single;
use crate::text;

verus! {

/// Why a file system could not be mounted.
#[derive(Debug)]
pub enum MountError {
    /// The repository could not be opened.
    RepoOpenFail(String),
    /// The mount itself failed.
    MountFailed(String),
    /// It was broken off.
    Interrupted,
    /// An error of the repository.
    Repo(MapacheError),
    /// An error of the file system.
    Io(String),
}

impl ToExitCode for MountError {
    open spec fn exit_code(&self) -> i32 {
        match self {
            MountError::RepoOpenFail(_) => 10,
            MountError::MountFailed(_) => 20,
            MountError::Interrupted => 130,
            MountError::Repo(_) => 1,
            MountError::Io(_) => 1,
        }
    }

    open spec fn message(&self) -> Seq<char> {
        match self {
            MountError::RepoOpenFail(s) => "failed to open repository: "@ + s@,
            MountError::MountFailed(s) => "mount failed: "@ + s@,
            MountError::Interrupted => "mount interrupted"@,
            MountError::Repo(e) => e.displayed(),
            MountError::Io(s) => s@,
        }
    }

    fn to_exit_code(&self) -> i32 {
        match self {
            MountError::RepoOpenFail(_) => 10,
            MountError::MountFailed(_) => 20,
            MountError::Interrupted => 130,
            MountError::Repo(_) => 1,
            MountError::Io(_) => 1,
        }
    }

    fn to_text(&self) -> String {
        match self {
            MountError::RepoOpenFail(s) => text::join2("failed to open repository: ", s.as_str()),
            MountError::MountFailed(s) => text::join2("mount failed: ", s.as_str()),
            MountError::Interrupted => "mount interrupted".to_owned(),
            MountError::Repo(e) => e.shown(),
            MountError::Io(s) => s.clone(),
        }
    }
}

/// The options of the command.
#[derive(Debug)]
pub struct CmdArgs {
    /// Mount point.
    pub mountpoint: String,
    /// Force mounting as a bundle.
    pub bundle: bool,
    /// Allow other users to access the mount.
    pub allow_other: bool,
    /// Create the mountpoint if it does not exist.
    pub create_mountpoint: bool,
    /// Display files, but do not load their contents.
    pub metadata_only: bool,
    /// Size of the internal data cache in MiB.
    pub data_cache_size_mib: Single,
    /// A password that need not be asked for.
    pub internal_password: Option<String>,
}

impl CmdArgs {
    /// How the command wants its repository.
    pub fn needs(&self) -> (r: Needs)
        ensures
            r == (Needs { dry_backend: false, exclusive_lock: false }),
    {
        Needs { dry_backend: false, exclusive_lock: false }
    }
}

/// What stands at the place of a mountpoint.
#[derive(Debug, Copy, Clone, PartialEq, Eq, Structural)]
pub enum Place {
    /// Nothing.
    Nothing,
    /// A directory.
    Directory,
    /// Something else.
    Other,
}

/// What has to be done before a mount.
#[derive(Debug, Copy, Clone, PartialEq, Eq, Structural)]
pub enum MountpointStep {
    /// Nothing: the mountpoint is there.
    Ready,
    /// The mountpoint has to be created, and goes again afterwards.
    Create,
    /// There is no mountpoint, and none is to be created.
    Missing,
    /// What is there is no directory.
    NotADirectory,
}

/// What has to be done with a mountpoint.
pub open spec fn mountpoint_step(place: Place, create: bool) -> MountpointStep {
    match place {
        Place::Nothing => if create {
            MountpointStep::Create
        } else {
            MountpointStep::Missing
        },
        Place::Directory => MountpointStep::Ready,
        Place::Other => MountpointStep::NotADirectory,
    }
}

/// Decides what has to be done with a mountpoint.
pub fn check_mountpoint(place: Place, create: bool) -> (r: MountpointStep)
    ensures
        r == mountpoint_step(place, create),
{
    match place {
        Place::Nothing => {
            if create {
                MountpointStep::Create
            } else {
                MountpointStep::Missing
            }
        },
        Place::Directory => MountpointStep::Ready,
        Place::Other => MountpointStep::NotADirectory,
    }
}

/// Checks the mountpoint of the command. True where it has to be created.
pub fn mountpoint_of(args: &CmdArgs, place: Place) -> (r: Result<bool, MountError>)
    ensures
        match mountpoint_step(place, args.create_mountpoint) {
            MountpointStep::Ready => r matches Ok(create) && !create,
            MountpointStep::Create => r matches Ok(create) && create,
            MountpointStep::Missing => r matches Err(MountError::MountFailed(s)) && s@ == "mountpoint doesn't exist"@,
            MountpointStep::NotADirectory => r matches Err(MountError::MountFailed(s)) && s@
                == "mountpoint must be a directory"@,
        },
{
    match check_mountpoint(place, args.create_mountpoint) {
        MountpointStep::Ready => Ok(false),
        MountpointStep::Create => Ok(true),
        MountpointStep::Missing => Err(MountError::MountFailed("mountpoint doesn't exist".to_owned())),
        MountpointStep::NotADirectory => Err(MountError::MountFailed("mountpoint must be a directory".to_owned())),
    }
}

/// Whether a bundle is mounted and not a repository: where it is asked for, or
/// where the repository path is a file whose extension says so.
pub fn is_bundle(args: &CmdArgs, repo_is_file: bool, repo_extension: Option<&str>) -> (r: bool)
    ensures
        r == (args.bundle || (repo_is_file && (repo_extension matches Some(ext) && ext@ == "mapache"@))),
{
    if args.bundle {
        return true;
    }
    if !repo_is_file {
        return false;
    }
    match repo_extension {
        Some(ext) => text::same(ext, "mapache"),
        None => false,
    }
}

/// A step of the command that can fail.
#[derive(Debug, Copy, Clone, PartialEq, Eq, Structural)]
pub enum MountStep {
    /// Creating the mountpoint.
    Create,
    /// Asking for the password of a bundle.
    Password,
    /// Opening a bundle.
    Bundle,
    /// Mounting.
    Mount,
}

/// What is said where a step fails.
pub open spec fn step_failed(step: MountStep) -> Seq<char> {
    match step {
        MountStep::Create => "could not create mount point: "@,
        MountStep::Password => "password prompt failed: "@,
        MountStep::Bundle => "failed to open bundle: "@,
        MountStep::Mount => Seq::empty(),
    }
}

/// The error of a step that fails.
pub fn step_error(step: MountStep, why: &str) -> (r: MountError)
    ensures
        r matches MountError::MountFailed(s) && s@ == step_failed(step) + why@,
{
    let s: String = match step {
        MountStep::Create => text::join2("could not create mount point: ", why),
        MountStep::Password => text::join2("password prompt failed: ", why),
        MountStep::Bundle => text::join2("failed to open bundle: ", why),
        MountStep::Mount => why.to_owned(),
    };
    assert(step is Mount ==> Seq::<char>::empty() + why@ =~= why@);
    MountError::MountFailed(s)
}

/// What the file system is mounted with.
#[derive(Debug, Copy, Clone, PartialEq, Eq, Structural)]
pub struct MountOptions {
    /// Allow other users to access the mount.
    pub allow_other: bool,
    /// Display files, but do not load their contents.
    pub metadata_only: bool,
    /// Size of the data cache in bytes.
    pub data_cache_size: u64,
}

/// What the file system of the command is mounted with.
pub fn mount_options(args: &CmdArgs) -> (r: MountOptions)
    ensures
        r == (MountOptions {
            allow_other: args.allow_other,
            metadata_only: args.metadata_only,
            data_cache_size: args.data_cache_size_mib.bytes(),
        }),
{
    MountOptions {
        allow_other: args.allow_other,
        metadata_only: args.metadata_only,
        data_cache_size: args.data_cache_size_mib.to_bytes(),
    }
}

/// A mountpoint is created only where nothing is, and only where that is asked
/// for; and what is there already is never taken for one that was created.
pub proof fn law_only_what_is_missing_is_created(place: Place, create: bool)
    ensures
        mountpoint_step(place, create) is Create <==> place is Nothing && create,
        place is Directory ==> mountpoint_step(place, create) is Ready,
{
}

/// Nothing is a mountpoint but a directory: where there is nothing, one is created or
/// missed, and anything else is refused.
pub proof fn law_only_a_directory_is_a_mountpoint(place: Place, create: bool)
    ensures
        mountpoint_step(place, create) is Ready <==> place is Directory,
        mountpoint_step(place, create) is Missing <==> place is Nothing && !create,
        mountpoint_step(place, create) is NotADirectory <==> place is Other,
{
}

/// What each error comes to: its exit code, which is never that of success, and what is
/// said of it, which ends with what went wrong.
pub proof fn law_errors_tell_what_went_wrong(e: MountError)
    ensures
        0 < e.exit_code() < 256,
        e matches MountError::RepoOpenFail(t) ==> e.exit_code() == 10 && e.message()
            == "failed to open repository: "@ + t@,
        e matches MountError::MountFailed(t) ==> e.exit_code() == 20 && e.message() == "mount failed: "@ + t@,
        e is Interrupted ==> e.exit_code() == 130 && e.message() == "mount interrupted"@,
        e matches MountError::Repo(t) ==> e.exit_code() == 1 && e.message() == t.displayed(),
        e matches MountError::Io(t) ==> e.exit_code() == 1 && e.message() == t@,
{
}

/// Where a step fails it is told which one it was.
pub proof fn law_each_step_is_told(step: MountStep, other: MountStep)
    ensures
        step_failed(step) == step_failed(other) <==> step == other,
        step is Create ==> step_failed(step) == "could not create mount point: "@,
        step is Password ==> step_failed(step) == "password prompt failed: "@,
        step is Bundle ==> step_failed(step) == "failed to open bundle: "@,
        step is Mount ==> step_failed(step).len() == 0,
{
    reveal_strlit("could not create mount point: ");
    reveal_strlit("password prompt failed: ");
    reveal_strlit("failed to open bundle: ");
    assert("could not create mount point: "@.len() != "password prompt failed: "@.len());
    assert("could not create mount point: "@.len() != "failed to open bundle: "@.len());
    assert("password prompt failed: "@.len() != "failed to open bundle: "@.len());
}

} // verus!
