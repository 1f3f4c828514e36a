//! The commands: which options each one is run with, and what it comes to.

use vstd::prelude::*;
use crate::cmd_bundle;
use crate::cmd_forget;
use crate::cmd_mount;
use crate::cmd_restore;
use crate::cmd_snapshot;
use crate::errors;
use crate::errors::ToExitCode;
use crate::global;
use crate::global::{CliGlobalArgs, Defaults, GlobalArgs, WithGlobal, WithRepository};
use crate::merge::Merge;
use crate::text;

verus! {

/// The command line.
#[derive(Debug)]
pub struct Cli {
    /// Path to a configuration file.
    pub config: Option<String>,
    /// The command.
    pub command: Command,
}

/// Top-level commands.
#[derive(Debug)]
pub enum Command {
    /// Changes what a snapshot says of itself.
    Amend(CliGlobalArgs),
    /// Works with bundle files.
    Bundle(WithRepository<cmd_bundle::CmdArgs>),
    /// Works with the cache.
    Cache,
    /// Prints an object of the repository.
    Cat(CliGlobalArgs),
    /// Collects garbage.
    Clean(CliGlobalArgs),
    /// Copies snapshots to another repository.
    Copy(CliGlobalArgs),
    /// Writes completions for a shell.
    Completion,
    /// Works with the configuration file.
    Config,
    /// Shows what two snapshots differ in.
    Diff(CliGlobalArgs),
    /// Writes out a file of a snapshot.
    Dump(CliGlobalArgs),
    /// Looks for files in snapshots.
    Find(CliGlobalArgs),
    /// Removes snapshots.
    Forget(WithGlobal<cmd_forget::CmdArgs>),
    /// Creates a repository.
    Init(CliGlobalArgs),
    /// Works with keys.
    Key(CliGlobalArgs),
    /// Lists snapshots.
    Log(CliGlobalArgs),
    /// Lists files of a snapshot.
    Ls(CliGlobalArgs),
    /// Mounts a repository or a bundle.
    Mount(WithGlobal<cmd_mount::CmdArgs>),
    /// Makes the index anew.
    RebuildIndex(CliGlobalArgs),
    /// Brings forgotten snapshots back.
    Recall(CliGlobalArgs),
    /// Cuts files into pieces anew.
    Rechunk(CliGlobalArgs),
    /// Restores a snapshot.
    Restore(WithGlobal<cmd_restore::CmdArgs>),
    /// Takes a snapshot.
    Snapshot(WithGlobal<cmd_snapshot::CmdArgs>),
    /// Counts what a repository holds.
    Stats(CliGlobalArgs),
    /// Brings two repositories into step.
    Sync(CliGlobalArgs),
    /// Shows the repository on the terminal.
    Tui(CliGlobalArgs),
    /// Removes locks.
    Unlock(CliGlobalArgs),
    /// Checks a repository.
    Verify(CliGlobalArgs),
}

/// What the configuration file gives to the commands.
#[derive(Debug)]
pub struct MapacheConfig {
    /// The global options.
    pub global: Option<CliGlobalArgs>,
    /// The options of `forget`.
    pub forget: Option<cmd_forget::CmdArgs>,
    /// The options of `restore`.
    pub restore: Option<cmd_restore::CmdArgs>,
    /// The options of `snapshot`.
    pub snapshot: Option<cmd_snapshot::CmdArgs>,
}

impl Command {
    /// The global options of a command, if it takes any.
    pub open spec fn global_options(self) -> Option<CliGlobalArgs> {
        match self {
            Command::Amend(g) => Some(g),
            Command::Bundle(_) => None,
            Command::Cache => None,
            Command::Cat(g) => Some(g),
            Command::Clean(g) => Some(g),
            Command::Copy(g) => Some(g),
            Command::Completion => None,
            Command::Config => None,
            Command::Diff(g) => Some(g),
            Command::Dump(g) => Some(g),
            Command::Find(g) => Some(g),
            Command::Forget(cmd) => Some(cmd.global),
            Command::Init(g) => Some(g),
            Command::Key(g) => Some(g),
            Command::Log(g) => Some(g),
            Command::Ls(g) => Some(g),
            Command::Mount(cmd) => Some(cmd.global),
            Command::RebuildIndex(g) => Some(g),
            Command::Recall(g) => Some(g),
            Command::Rechunk(g) => Some(g),
            Command::Restore(cmd) => Some(cmd.global),
            Command::Snapshot(cmd) => Some(cmd.global),
            Command::Stats(g) => Some(g),
            Command::Sync(g) => Some(g),
            Command::Tui(g) => Some(g),
            Command::Unlock(g) => Some(g),
            Command::Verify(g) => Some(g),
        }
    }

    /// The global options of a command, if it takes any.
    pub fn global_args(&self) -> (r: Option<&CliGlobalArgs>)
        ensures
            match self.global_options() {
                Some(g) => r matches Some(h) && *h == g,
                None => r is None,
            },
    {
        match self {
            Command::Amend(g) => Some(g),
            Command::Bundle(_) => None,
            Command::Cache => None,
            Command::Cat(g) => Some(g),
            Command::Clean(g) => Some(g),
            Command::Copy(g) => Some(g),
            Command::Completion => None,
            Command::Config => None,
            Command::Diff(g) => Some(g),
            Command::Dump(g) => Some(g),
            Command::Find(g) => Some(g),
            Command::Forget(cmd) => Some(&cmd.global),
            Command::Init(g) => Some(g),
            Command::Key(g) => Some(g),
            Command::Log(g) => Some(g),
            Command::Ls(g) => Some(g),
            Command::Mount(cmd) => Some(&cmd.global),
            Command::RebuildIndex(g) => Some(g),
            Command::Recall(g) => Some(g),
            Command::Rechunk(g) => Some(g),
            Command::Restore(cmd) => Some(&cmd.global),
            Command::Snapshot(cmd) => Some(&cmd.global),
            Command::Stats(g) => Some(g),
            Command::Sync(g) => Some(g),
            Command::Tui(g) => Some(g),
            Command::Unlock(g) => Some(g),
            Command::Verify(g) => Some(g),
        }
    }

    /// The name under which the configuration file has hooks for a command.
    pub fn hook_name(&self) -> (r: Option<&'static str>)
        ensures
            match self {
                Command::Snapshot(_) => r matches Some(s) && s@ == "snapshot"@,
                Command::Restore(_) => r matches Some(s) && s@ == "restore"@,
                Command::Forget(_) => r matches Some(s) && s@ == "forget"@,
                Command::Clean(_) => r matches Some(s) && s@ == "clean"@,
                Command::Verify(_) => r matches Some(s) && s@ == "verify"@,
                _ => r is None,
            },
    {
        match self {
            Command::Snapshot(_) => Some("snapshot"),
            Command::Restore(_) => Some("restore"),
            Command::Forget(_) => Some("forget"),
            Command::Clean(_) => Some("clean"),
            Command::Verify(_) => Some("verify"),
            _ => None,
        }
    }

    /// A command with its own options of the configuration file filled in.
    pub open spec fn configured(self, config: MapacheConfig) -> Command {
        match self {
            Command::Forget(cmd) => Command::Forget(
                WithGlobal { global: cmd.global, args: own_options(cmd.args, config.forget) },
            ),
            Command::Restore(cmd) => Command::Restore(
                WithGlobal { global: cmd.global, args: own_options(cmd.args, config.restore) },
            ),
            Command::Snapshot(cmd) => Command::Snapshot(
                WithGlobal { global: cmd.global, args: own_options(cmd.args, config.snapshot) },
            ),
            other => other,
        }
    }
}

/// The options of a command with those of the configuration file filled in.
pub open spec fn own_options<T: Merge>(args: T, config: Option<T>) -> T {
    match config {
        Some(cfg) => args.merged(cfg),
        None => args,
    }
}

/// Whether a result is what the global options of a command come to. A bundle takes
/// nothing but the path of a repository, which it may do without.
pub open spec fn comes_to(
    command: Command,
    config: MapacheConfig,
    env_repo: Option<String>,
    defaults: Defaults,
    r: Result<GlobalArgs, String>,
) -> bool {
    match (command, command.global_options()) {
        (Command::Bundle(cmd), _) => r matches Ok(g) && global::at_repository(
            g,
            global::repository_named(cmd.repo, config.global, env_repo),
            defaults,
        ),
        (_, Some(g)) => text::agrees(r, global::resolved(global::with_config(g, config.global), env_repo, defaults)),
        (_, None) => r matches Ok(g) && global::at_repository(g, None, defaults),
    }
}

/// Works out what a command is run with: its global options, and its own with
/// those of the configuration file filled in.
pub fn resolve_command(command: Command, config: MapacheConfig, env_repo: Option<String>, defaults: &Defaults) -> (r: (
    Result<GlobalArgs, String>,
    Command,
))
    ensures
        comes_to(command, config, env_repo, *defaults, r.0),
        r.1 == command.configured(config),
{
    match command {
        Command::Forget(cmd) => {
            let (g, cmd) = global::resolve_global_with_extra(cmd, &config.global, config.forget, env_repo, defaults);
            (g, Command::Forget(cmd))
        },
        Command::Restore(cmd) => {
            let (g, cmd) = global::resolve_global_with_extra(cmd, &config.global, config.restore, env_repo, defaults);
            (g, Command::Restore(cmd))
        },
        Command::Snapshot(cmd) => {
            let (g, cmd) = global::resolve_global_with_extra(cmd, &config.global, config.snapshot, env_repo, defaults);
            (g, Command::Snapshot(cmd))
        },
        Command::Bundle(cmd) => {
            let g = global::resolve_repository(&cmd.repo, &config.global, env_repo, defaults);
            (Ok(g), Command::Bundle(cmd))
        },
        other => {
            let g: Result<GlobalArgs, String> = match other.global_args() {
                Some(g) => global::resolve_global(g, &config.global, env_repo, defaults),
                None => Ok(GlobalArgs::default_no_repo(defaults)),
            };
            (g, other)
        },
    }
}

// ---------------------------------------------------------------------------
// One command
// ---------------------------------------------------------------------------

/// A stage of a command that works on a repository.
#[derive(Debug, Copy, Clone, PartialEq, Eq, Structural)]
pub enum Stage {
    /// The options and the paths that they name are checked.
    Check,
    /// The storage is opened.
    Backend,
    /// The repository is opened, and locked.
    Open,
    /// What the work needs is looked up.
    Prepare,
    /// The hook before the work is run.
    PreHook,
    /// The work itself.
    Work,
    /// What is asked for after the work.
    FollowUp,
    /// The hook after the work is run.
    PostHook,
    /// The command has ended.
    Done,
}

/// The stage after another. `well` tells whether the stage did what it should,
/// `more` whether anything is asked for after the work.
pub open spec fn stage_after(stage: Stage, well: bool, more: bool) -> Stage {
    match stage {
        Stage::Check => if well {
            Stage::Backend
        } else {
            Stage::Done
        },
        Stage::Backend => if well {
            Stage::Open
        } else {
            Stage::Done
        },
        Stage::Open => if well {
            Stage::Prepare
        } else {
            Stage::PostHook
        },
        Stage::Prepare => if well {
            Stage::PreHook
        } else {
            Stage::PostHook
        },
        Stage::PreHook => if well {
            Stage::Work
        } else {
            Stage::PostHook
        },
        Stage::Work => if well && more {
            Stage::FollowUp
        } else {
            Stage::PostHook
        },
        Stage::FollowUp => Stage::PostHook,
        Stage::PostHook => Stage::Done,
        Stage::Done => Stage::Done,
    }
}

/// Decides which stage comes after another.
pub fn next_stage(stage: Stage, well: bool, more: bool) -> (r: Stage)
    ensures
        r == stage_after(stage, well, more),
{
    match stage {
        Stage::Check => {
            if well {
                Stage::Backend
            } else {
                Stage::Done
            }
        },
        Stage::Backend => {
            if well {
                Stage::Open
            } else {
                Stage::Done
            }
        },
        Stage::Open => {
            if well {
                Stage::Prepare
            } else {
                Stage::PostHook
            }
        },
        Stage::Prepare => {
            if well {
                Stage::PreHook
            } else {
                Stage::PostHook
            }
        },
        Stage::PreHook => {
            if well {
                Stage::Work
            } else {
                Stage::PostHook
            }
        },
        Stage::Work => {
            if well && more {
                Stage::FollowUp
            } else {
                Stage::PostHook
            }
        },
        Stage::FollowUp => Stage::PostHook,
        Stage::PostHook => Stage::Done,
        Stage::Done => Stage::Done,
    }
}

/// How many stages can come after another.
pub open spec fn stages_left(stage: Stage) -> nat {
    match stage {
        Stage::Check => 8,
        Stage::Backend => 7,
        Stage::Open => 6,
        Stage::Prepare => 5,
        Stage::PreHook => 4,
        Stage::Work => 3,
        Stage::FollowUp => 2,
        Stage::PostHook => 1,
        Stage::Done => 0,
    }
}

/// The stages that a command goes through from one on, where `well` tells of each
/// whether it does what it should.
pub open spec fn stages(stage: Stage, well: spec_fn(Stage) -> bool, more: bool) -> Seq<Stage>
    decreases stages_left(stage),
{
    if stage is Done {
        Seq::empty()
    } else {
        seq![stage] + stages(stage_after(stage, well(stage), more), well, more)
    }
}

/// A command goes on from one stage to the next as long as all goes well. What can be
/// checked is checked before the repository is opened and locked. The work is done
/// only where all before it went well, and what is asked for after it only where the
/// work did; and the hook after the work is the last stage of every
/// command that could open its storage, whatever it came to.
pub proof fn law_stages_in_order(well: spec_fn(Stage) -> bool, more: bool)
    ensures
        stages(Stage::Check, well, more) == (if !well(Stage::Check) {
            seq![Stage::Check]
        } else if !well(Stage::Backend) {
            seq![Stage::Check, Stage::Backend]
        } else if !well(Stage::Open) {
            seq![Stage::Check, Stage::Backend, Stage::Open, Stage::PostHook]
        } else if !well(Stage::Prepare) {
            seq![Stage::Check, Stage::Backend, Stage::Open, Stage::Prepare, Stage::PostHook]
        } else if !well(Stage::PreHook) {
            seq![Stage::Check, Stage::Backend, Stage::Open, Stage::Prepare, Stage::PreHook, Stage::PostHook]
        } else if well(Stage::Work) && more {
            seq![
                Stage::Check,
                Stage::Backend,
                Stage::Open,
                Stage::Prepare,
                Stage::PreHook,
                Stage::Work,
                Stage::FollowUp,
                Stage::PostHook,
            ]
        } else {
            seq![
                Stage::Check,
                Stage::Backend,
                Stage::Open,
                Stage::Prepare,
                Stage::PreHook,
                Stage::Work,
                Stage::PostHook,
            ]
        }),
{
    let end = seq![Stage::PostHook];
    assert(stages(Stage::PostHook, well, more) =~= end) by {
        assert(stages(Stage::Done, well, more) =~= Seq::<Stage>::empty());
    }
    let follow = stages(Stage::FollowUp, well, more);
    assert(follow =~= seq![Stage::FollowUp, Stage::PostHook]);
    let work = stages(Stage::Work, well, more);
    assert(work =~= if well(Stage::Work) && more {
        seq![Stage::Work, Stage::FollowUp, Stage::PostHook]
    } else {
        seq![Stage::Work, Stage::PostHook]
    });
    let pre = stages(Stage::PreHook, well, more);
    assert(pre =~= seq![Stage::PreHook] + if well(Stage::PreHook) {
        work
    } else {
        end
    });
    let prepare = stages(Stage::Prepare, well, more);
    assert(prepare =~= seq![Stage::Prepare] + if well(Stage::Prepare) {
        pre
    } else {
        end
    });
    let opening = stages(Stage::Open, well, more);
    assert(opening =~= seq![Stage::Open] + if well(Stage::Open) {
        prepare
    } else {
        end
    });
    let backend = stages(Stage::Backend, well, more);
    assert(backend =~= seq![Stage::Backend] + if well(Stage::Backend) {
        opening
    } else {
        Seq::empty()
    });
}

// ---------------------------------------------------------------------------
// The end
// ---------------------------------------------------------------------------

/// How the program ends.
#[derive(Debug)]
pub struct Ending {
    /// The exit code.
    pub code: i32,
    /// What is to be printed of an error, if there was one.
    pub message: Option<String>,
    /// Whether it is printed as JSON.
    pub as_json: bool,
}

/// How the program ends where the configuration file or the global options are of
/// no use.
pub fn setup_failed(why: String) -> (r: Ending)
    ensures
        r.code == 1,
        r.message == Some(why),
        !r.as_json,
{
    Ending { code: 1, message: Some(why), as_json: false }
}

/// How the program ends when its command has ended.
pub fn command_ended<E: ToExitCode>(result: &Result<(), E>, json: bool) -> (r: Ending)
    ensures
        r.code == 0 <==> result is Ok,
        r.message is Some <==> result is Err,
        result matches Err(e) ==> r.code == e.exit_code() && r.message.unwrap()@ == e.message(),
        r.as_json == json,
{
    let (code, message) = errors::outcome(result);
    Ending { code, message, as_json: json }
}

/// A bundle, and a command that takes no global options, can be run without a
/// repository, and any other one needs one: of the command line, of the configuration file or of the environment.
pub proof fn law_who_needs_a_repository(
    command: Command,
    config: MapacheConfig,
    env_repo: Option<String>,
    defaults: Defaults,
    r: Result<GlobalArgs, String>,
)
    requires
        comes_to(command, config, env_repo, defaults, r),
    ensures
        command is Bundle || command is Cache || command is Completion || command is Config ==> r is Ok,
        !(command is Bundle || command is Cache || command is Completion || command is Config) ==> (r is Ok <==> {
            ||| command.global_options().unwrap().repo is Some
            ||| config.global matches Some(cfg) && cfg.repo is Some
            ||| env_repo is Some
        }),
{
}

/// A bundle works with the repository that is named for it, wherever that is. To
/// export and to import it needs one, and for nothing else.
pub proof fn law_bundle_exports_and_imports_with_a_repository(
    cmd: WithRepository<cmd_bundle::CmdArgs>,
    config: MapacheConfig,
    env_repo: Option<String>,
    defaults: Defaults,
    g: GlobalArgs,
)
    requires
        comes_to(Command::Bundle(cmd), config, env_repo, defaults, Ok(g)),
    ensures
        ({
            let named = global::repository_named(cmd.repo, config.global, env_repo);
            let usable = named matches Some(repo) && repo@.len() > 0;
            let mode = cmd_bundle::asked(cmd.args);
            &&& named matches Some(repo) ==> g.repo == repo
            &&& named is None ==> g.repo@.len() == 0
            &&& mode is Export && cmd.args.output is Some ==> (cmd_bundle::fault(cmd.args, g.repo@) is None
                <==> usable)
            &&& mode is Import && cmd.args.input@.len() > 0 ==> (cmd_bundle::fault(cmd.args, g.repo@) is None
                <==> usable)
            &&& !(mode is Export || mode is Import) ==> cmd_bundle::fault(cmd.args, g.repo@) == cmd_bundle::fault(
                cmd.args,
                Seq::<char>::empty(),
            )
        }),
{
}

/// The configuration file fills in options of three commands and leaves every
/// other command as it is; and no command becomes another.
pub proof fn law_only_three_commands_are_configured(command: Command, config: MapacheConfig)
    ensures
        !(command is Forget || command is Restore || command is Snapshot) ==> command.configured(config) == command,
        command is Forget <==> command.configured(config) is Forget,
        command is Restore <==> command.configured(config) is Restore,
        command is Snapshot <==> command.configured(config) is Snapshot,
        command.configured(config).global_options() == command.global_options(),
{
}

/// The commands with options of their own in the configuration file get those that
/// stand under their own name, filled in behind those of the command line.
pub proof fn law_each_command_gets_its_own_options(
    config: MapacheConfig,
    forget: WithGlobal<cmd_forget::CmdArgs>,
    restore: WithGlobal<cmd_restore::CmdArgs>,
    snapshot: WithGlobal<cmd_snapshot::CmdArgs>,
)
    ensures
        Command::Forget(forget).configured(config) matches Command::Forget(c) && c.global == forget.global && (
        config.forget matches Some(cfg) ==> c.args == forget.args.merged(cfg)) && (config.forget is None ==> c.args
            == forget.args),
        Command::Restore(restore).configured(config) matches Command::Restore(c) && c.global == restore.global && (
        config.restore matches Some(cfg) ==> c.args == restore.args.merged(cfg)) && (config.restore is None ==> c.args
            == restore.args),
        Command::Snapshot(snapshot).configured(config) matches Command::Snapshot(c) && c.global == snapshot.global && (
        config.snapshot matches Some(cfg) ==> c.args == snapshot.args.merged(cfg)) && (config.snapshot is None
            ==> c.args == snapshot.args),
{
}

/// Every command but four takes global options, and what it takes is what stands with it
/// on the command line; these four run with what holds where nothing is given.
pub proof fn law_a_command_runs_with_its_global_options(
    command: Command,
    cli: CliGlobalArgs,
    config: MapacheConfig,
    env_repo: Option<String>,
    defaults: Defaults,
    g: GlobalArgs,
)
    requires
        comes_to(command, config, env_repo, defaults, Ok(g)),
    ensures
        command.global_options() is None <==> command is Bundle || command is Cache || command is Completion
            || command is Config,
        command matches Command::Forget(cmd) ==> command.global_options() == Some(cmd.global),
        command matches Command::Restore(cmd) ==> command.global_options() == Some(cmd.global),
        command matches Command::Snapshot(cmd) ==> command.global_options() == Some(cmd.global),
        command matches Command::Mount(cmd) ==> command.global_options() == Some(cmd.global),
        command == Command::Amend(cli) || command == Command::Cat(cli) || command == Command::Clean(cli) || command
            == Command::Copy(cli) || command == Command::Diff(cli) || command == Command::Dump(cli) || command
            == Command::Find(cli) || command == Command::Init(cli) || command == Command::Key(cli) || command
            == Command::Log(cli) || command == Command::Ls(cli) || command == Command::RebuildIndex(cli) || command
            == Command::Recall(cli) || command == Command::Rechunk(cli) || command == Command::Stats(cli) || command
            == Command::Sync(cli) || command == Command::Tui(cli) || command == Command::Unlock(cli) || command
            == Command::Verify(cli) ==> command.global_options() == Some(cli),
        command.global_options() matches Some(o) ==> global::resolved(
            global::with_config(o, config.global),
            env_repo,
            defaults,
        ) == Ok::<GlobalArgs, Seq<char>>(g),
        command is Cache || command is Completion || command is Config ==> g.repo@.len() == 0 && global::at_repository(
            g,
            None,
            defaults,
        ),
{
}

/// The stages of a command follow on each other one by one: after a stage that went well
/// comes the next, after one that did not the hook that closes the command, unless the
/// storage was never opened; and what closes the command closes it whatever it came to.
pub proof fn law_one_stage_after_the_other(stage: Stage, well: bool, more: bool)
    ensures
        stage_after(Stage::Check, true, more) is Backend,
        stage_after(Stage::Backend, true, more) is Open,
        stage_after(Stage::Open, true, more) is Prepare,
        stage_after(Stage::Prepare, true, more) is PreHook,
        stage_after(Stage::PreHook, true, more) is Work,
        stage_after(Stage::Work, true, true) is FollowUp,
        stage_after(Stage::Work, true, false) is PostHook,
        stage_after(Stage::FollowUp, well, more) is PostHook,
        stage_after(Stage::PostHook, well, more) is Done,
        stage_after(Stage::Done, well, more) is Done,
        stage is Check || stage is Backend ==> stage_after(stage, false, more) is Done,
        stage is Open || stage is Prepare || stage is PreHook || stage is Work ==> stage_after(
            stage,
            false,
            more,
        ) is PostHook,
{
}

} // verus!
