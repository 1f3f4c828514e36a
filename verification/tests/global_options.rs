//! Global options, commands and how a program ends.

use mapache::cmd_bundle;
use mapache::cmd_forget;
use mapache::cmd_restore;
use mapache::cmd_snapshot;
use mapache::command::{
    command_ended, next_stage, resolve_command, setup_failed, Cli, Command, MapacheConfig, Stage,
};
use mapache::errors::{all_done, outcome, ErrorText, MapacheError, OtherError, ToExitCode};
use mapache::global::{
    cli_to_global_args, resolve_global, resolve_global_with_extra, CliGlobalArgs, Defaults, GlobalArgs, HookArgs,
    WithGlobal, WithRepository,
};
use mapache::merge::{merge_list, merge_opt, merge_option_vec, Merge};
use mapache::options::{deserialize_verbosity_opt, parse_verbosity, Compression, UseSnapshot};
use mapache::sizes::Single;
use mapache::units::Duration;

const NO_REPOSITORY: &str =
    "Repository path is required. Use --repo, set MAPACHE_REPOSITORY, or add it to config file.";

fn defaults() -> Defaults {
    Defaults {
        pack_size_mib: Single { bits: 16.0f32.to_bits() },
        compression: Compression::Balanced,
        verbosity: 1,
        snapshot_readers: 4,
        snapshot_packers: 2,
        gc_tolerance_pct: Single { bits: 5.0f32.to_bits() },
    }
}

fn config() -> MapacheConfig {
    MapacheConfig { global: None, forget: None, restore: None, snapshot: None }
}

fn with_repo(path: &str) -> CliGlobalArgs {
    CliGlobalArgs { repo: Some(path.to_string()), ..CliGlobalArgs::default() }
}

#[test]
fn the_first_value_stays() {
    let mut v = Some(1);
    merge_opt(&mut v, Some(2));
    assert_eq!(v, Some(1));
    let mut v = None;
    merge_opt(&mut v, Some(2));
    assert_eq!(v, Some(2));
    merge_opt(&mut v, None);
    assert_eq!(v, Some(2));
    let mut l = vec![1];
    merge_list(&mut l, vec![2, 3]);
    assert_eq!(l, [1]);
    let mut l: Vec<i32> = vec![];
    merge_list(&mut l, vec![2, 3]);
    assert_eq!(l, [2, 3]);
    let mut o = Some(vec![1]);
    merge_option_vec(&mut o, Some(vec![2]));
    assert_eq!(o, Some(vec![1]));
    let mut o: Option<Vec<i32>> = Some(vec![]);
    merge_option_vec(&mut o, Some(vec![2]));
    assert_eq!(o, Some(vec![2]));
    let mut o: Option<Vec<i32>> = Some(vec![]);
    merge_option_vec(&mut o, None);
    assert_eq!(o, Some(vec![]));
}

#[test]
fn command_line_wins_over_configuration() {
    let cfg = CliGlobalArgs {
        repo: Some("/cfg".to_string()),
        no_cache: Some(true),
        json: Some(true),
        verbosity: Some(3),
        limit_upload: Some(7),
        ..CliGlobalArgs::default()
    };
    let mut cli = CliGlobalArgs { json: Some(false), ..with_repo("/cli") };
    cli.merge(cfg.clone());
    assert_eq!(cli.repo.as_deref(), Some("/cli"));
    assert_eq!(cli.json, Some(false));
    assert_eq!(cli.no_cache, Some(true));
    assert_eq!(cli.verbosity, Some(3));
    assert_eq!(cli.limit_upload, Some(7));
    assert_eq!(cli.quiet, None);
    let once = format!("{cli:?}");
    cli.merge(cfg);
    assert_eq!(format!("{cli:?}"), once);
}

#[test]
fn where_the_repository_comes_from() {
    let cfg = Some(with_repo("/cfg"));
    let env = Some("/env".to_string());
    let d = defaults();
    assert_eq!(resolve_global(&with_repo("/cli"), &cfg, env.clone(), &d).unwrap().repo, "/cli");
    assert_eq!(resolve_global(&CliGlobalArgs::default(), &cfg, env.clone(), &d).unwrap().repo, "/cfg");
    assert_eq!(resolve_global(&CliGlobalArgs::default(), &None, env, &d).unwrap().repo, "/env");
    assert_eq!(
        resolve_global(&CliGlobalArgs::default(), &None, None, &d).unwrap_err(),
        NO_REPOSITORY
    );
}

#[test]
fn what_is_left_open_gets_a_default() {
    let g = cli_to_global_args(&with_repo("/r"), None, &defaults()).unwrap();
    assert!(!g.no_cache && !g.quiet && !g.json && !g.no_lock);
    assert_eq!(g.verbosity, None);
    assert_eq!(g.compression_level, Compression::Balanced);
    assert_eq!(g.pack_size_mib, defaults().pack_size_mib);
    assert_eq!(g.retry_lock_duration, None);
    let cli = CliGlobalArgs {
        no_cache: Some(true),
        compression_level: Some(Compression::Best),
        retry_lock_duration: Some(Duration { millis: 1000 }),
        ..with_repo("/r")
    };
    let g = cli_to_global_args(&cli, Some("/env".to_string()), &defaults()).unwrap();
    assert!(g.no_cache);
    assert_eq!(g.repo, "/r");
    assert_eq!(g.compression_level, Compression::Best);
    assert_eq!(g.retry_lock_duration, Some(Duration { millis: 1000 }));
}

#[test]
fn backend_and_repository() {
    let mut g = cli_to_global_args(&with_repo("/r"), None, &defaults()).unwrap();
    g.limit_upload = Some(9);
    g.ssh_privatekey = Some("key".to_string());
    let b = g.backend_options(true);
    assert_eq!(b.repo_path, "/r");
    assert!(b.dry_backend);
    assert_eq!(b.limit_upload, Some(9));
    assert_eq!(b.limit_download, None);
    assert_eq!(b.ssh_privatekey.as_deref(), Some("key"));
    assert_eq!(b.ssh_known_hosts, None);
    assert!(!g.backend_options(false).dry_backend);
    let c = g.to_repo_config();
    assert_eq!(c.pack_size, 16 * 1024 * 1024);
    assert!(c.use_cache);
    assert_eq!(c.compression, Compression::Balanced);
}

#[test]
fn templates() {
    let d = defaults();
    let t = CliGlobalArgs::template(&d);
    assert_eq!(t.repo.as_deref(), Some("/path/to/repo"));
    assert_eq!(t.retry_lock_duration, Some(Duration { millis: chrono::Duration::minutes(5).num_milliseconds() }));
    assert_eq!(t.limit_upload, Some(10 * 1024 * 1024));
    assert_eq!(t.limit_download, Some(50 * 1024 * 1024));
    assert_eq!(t.key.as_deref(), Some("~/.mapache/repo.key"));
    assert_eq!(t.verbosity, Some(1));
    let f = cmd_forget::CmdArgs::template();
    assert_eq!(f.keep_last, Some(10));
    for n in [f.keep_yearly, f.keep_monthly, f.keep_weekly, f.keep_daily] {
        let written = n.map(cmd_forget::RetentionValue::Number);
        assert_eq!(cmd_forget::deserialize_period_opt(written), Ok(n));
    }
    assert_eq!(f.keep_yearly, Some(2));
    assert_eq!(f.keep_tags.as_deref(), Some("important,archive"));
    let r = cmd_restore::CmdArgs::template();
    assert_eq!(r.target.as_deref(), Some("/tmp/restore"));
    assert_eq!(r.exclude, Some(vec!["**/node_modules".to_string()]));
    let s = cmd_snapshot::CmdArgs::template(&d);
    assert_eq!(s.paths, ["/home/user/Documents"]);
    assert_eq!(s.exclude, Some(vec!["**/node_modules".to_string(), "**/.git".to_string()]));
    assert_eq!(s.num_readers, Some(4));
    assert_eq!(s.num_packers, Some(2));
    assert_eq!(s.parent, Some(UseSnapshot::Latest));
    let h = HookArgs::default();
    assert!(h.pre_hook.is_none() && h.post_hook.is_none());
}

#[test]
fn commands_without_a_repository() {
    for command in [Command::Cache, Command::Completion, Command::Config] {
        assert!(command.global_args().is_none());
        let (g, _) = resolve_command(command, config(), Some("/env".to_string()), &defaults());
        let g = g.unwrap();
        assert_eq!(g.repo, "");
        assert!(!g.json);
    }
    assert_eq!(GlobalArgs::default_no_repo(&defaults()).compression_level, Compression::Balanced);
}

#[test]
fn a_bundle_takes_the_repository_that_is_named() {
    let bundle = |repo: Option<&str>| {
        let mut args = cmd_bundle::CmdArgs::with_defaults(&defaults());
        args.export_snapshot = Some(UseSnapshot::Latest);
        args.output = Some("b.mapache".to_string());
        Command::Bundle(WithRepository { repo: repo.map(String::from), args })
    };
    let mode = |command: Command, config: MapacheConfig, env: Option<&str>| {
        let (g, c) = resolve_command(command, config, env.map(String::from), &defaults());
        let g = g.unwrap();
        match c {
            Command::Bundle(cmd) => (g.repo.clone(), cmd_bundle::choose_mode(&cmd.args, &g).map_err(|e| e.to_text())),
            _ => panic!("no longer the same command"),
        }
    };
    let refused = "config error: Repository path is required for export mode. Use -r, set MAPACHE_REPOSITORY, or add it to config file.";
    assert_eq!(mode(bundle(Some("/cli")), config(), Some("/env")), ("/cli".to_string(), Ok(cmd_bundle::Mode::Export)));
    assert_eq!(mode(bundle(None), config(), Some("/env")), ("/env".to_string(), Ok(cmd_bundle::Mode::Export)));
    let cfg = || MapacheConfig { global: Some(with_repo("/cfg")), ..config() };
    assert_eq!(mode(bundle(None), cfg(), Some("/env")), ("/cfg".to_string(), Ok(cmd_bundle::Mode::Export)));
    assert_eq!(mode(bundle(None), config(), None), (String::new(), Err(refused.to_string())));
    assert!(bundle(None).global_args().is_none());
    // Nothing but the path counts.
    let cfg = MapacheConfig {
        global: Some(CliGlobalArgs {
            json: Some(true),
            no_lock: Some(true),
            compression_level: Some(Compression::Best),
            ..with_repo("/cfg")
        }),
        ..config()
    };
    let (g, _) = resolve_command(bundle(None), cfg, None, &defaults());
    let g = g.unwrap();
    assert!(!g.json && !g.no_lock);
    assert_eq!(g.compression_level, Compression::Balanced);
    let args = cmd_bundle::CmdArgs::with_defaults(&defaults());
    assert_eq!(args.readers, 4);
    assert_eq!(f32::from_bits(args.data_cache_size_mib.bits), 256.0);
}

#[test]
fn verbosity_goes_from_zero_to_three() {
    assert_eq!(parse_verbosity("0"), Ok(0));
    assert_eq!(parse_verbosity("3"), Ok(3));
    assert_eq!(parse_verbosity("4"), Err("verbosity must be between 0 and 3".to_string()));
    assert_eq!(parse_verbosity("-1"), Err("'-1' is not a valid number".to_string()));
    assert_eq!(parse_verbosity("4294967296"), Err("'4294967296' is not a valid number".to_string()));
    assert_eq!(deserialize_verbosity_opt(None), Ok(None));
    assert_eq!(deserialize_verbosity_opt(Some(2)), Ok(Some(2)));
    assert!(deserialize_verbosity_opt(Some(9)).is_err());
}

#[test]
fn commands_with_a_repository() {
    let (g, c) = resolve_command(Command::Ls(with_repo("/r")), config(), None, &defaults());
    assert_eq!(g.unwrap().repo, "/r");
    assert!(matches!(c, Command::Ls(_)));
    let (g, _) = resolve_command(Command::Verify(CliGlobalArgs::default()), config(), None, &defaults());
    assert_eq!(g.unwrap_err(), NO_REPOSITORY);
}

#[test]
fn commands_with_options_in_the_configuration() {
    let cfg = MapacheConfig {
        global: Some(with_repo("/cfg")),
        forget: Some(cmd_forget::CmdArgs {
            keep_last: Some(9),
            force: true,
            dry_run: true,
            hosts: vec!["h".to_string()],
            ..cmd_forget::CmdArgs::default()
        }),
        restore: None,
        snapshot: None,
    };
    let cmd = WithGlobal {
        global: CliGlobalArgs::default(),
        args: cmd_forget::CmdArgs { keep_daily: Some(2), ..cmd_forget::CmdArgs::default() },
    };
    let cli = Cli { config: Some("c.toml".to_string()), command: Command::Forget(cmd) };
    assert_eq!(cli.config.as_deref(), Some("c.toml"));
    let (g, c) = resolve_command(cli.command, cfg, None, &defaults());
    assert_eq!(g.unwrap().repo, "/cfg");
    match c {
        Command::Forget(cmd) => {
            assert_eq!(cmd.args.keep_last, Some(9));
            assert_eq!(cmd.args.keep_daily, Some(2));
            assert_eq!(cmd.args.hosts, ["h"]);
            assert!(!cmd.args.force && !cmd.args.dry_run);
        }
        _ => panic!("no longer the same command"),
    }
}

#[test]
fn options_of_restore_and_snapshot_are_filled_in() {
    let cmd = WithGlobal {
        global: with_repo("/r"),
        args: cmd_restore::CmdArgs { verify: Some(false), ..cmd_restore::CmdArgs::default() },
    };
    let extra = cmd_restore::CmdArgs {
        verify: Some(true),
        target: Some("/t".to_string()),
        dry_run: true,
        snapshot: UseSnapshot::SnapshotId("x".to_string()),
        ..cmd_restore::CmdArgs::default()
    };
    let (g, cmd) = resolve_global_with_extra(cmd, &None, Some(extra), None, &defaults());
    assert!(g.is_ok());
    assert_eq!(cmd.args.verify, Some(false));
    assert_eq!(cmd.args.target.as_deref(), Some("/t"));
    assert!(!cmd.args.dry_run);
    assert_eq!(cmd.args.snapshot, UseSnapshot::Latest);

    let mut args = cmd_snapshot::CmdArgs {
        paths: vec!["/cli".to_string()],
        exclude: Some(vec![]),
        ..cmd_snapshot::CmdArgs::default()
    };
    args.merge(cmd_snapshot::CmdArgs {
        paths: vec!["/cfg".to_string()],
        exclude: Some(vec!["x".to_string()]),
        no_parent: true,
        stdin: true,
        num_readers: Some(3),
        ..cmd_snapshot::CmdArgs::default()
    });
    assert_eq!(args.paths, ["/cli"]);
    assert_eq!(args.exclude, Some(vec!["x".to_string()]));
    assert!(!args.no_parent && !args.stdin);
    assert_eq!(args.num_readers, Some(3));
}

#[test]
fn hooks_by_name() {
    let g = CliGlobalArgs::default;
    let snapshot = WithGlobal { global: g(), args: cmd_snapshot::CmdArgs::default() };
    assert_eq!(Command::Snapshot(snapshot).hook_name(), Some("snapshot"));
    let restore = WithGlobal { global: g(), args: cmd_restore::CmdArgs::default() };
    assert_eq!(Command::Restore(restore).hook_name(), Some("restore"));
    let forget = WithGlobal { global: g(), args: cmd_forget::CmdArgs::default() };
    assert_eq!(Command::Forget(forget).hook_name(), Some("forget"));
    assert_eq!(Command::Clean(g()).hook_name(), Some("clean"));
    assert_eq!(Command::Verify(g()).hook_name(), Some("verify"));
    assert_eq!(Command::Tui(g()).hook_name(), None);
    assert_eq!(Command::Cache.hook_name(), None);
}

#[test]
fn stages_of_a_command() {
    let run = |fails_at: Option<Stage>, more: bool| {
        let mut seen = vec![];
        let mut stage = Stage::Check;
        while stage != Stage::Done {
            seen.push(stage);
            stage = next_stage(stage, Some(stage) != fails_at, more);
        }
        seen
    };
    assert_eq!(run(Some(Stage::Check), true), [Stage::Check]);
    assert_eq!(run(Some(Stage::Backend), true), [Stage::Check, Stage::Backend]);
    assert_eq!(
        run(Some(Stage::Open), true),
        [Stage::Check, Stage::Backend, Stage::Open, Stage::PostHook]
    );
    assert_eq!(
        run(Some(Stage::PreHook), true),
        [Stage::Check, Stage::Backend, Stage::Open, Stage::Prepare, Stage::PreHook, Stage::PostHook]
    );
    assert_eq!(
        run(Some(Stage::Work), true),
        [Stage::Check, Stage::Backend, Stage::Open, Stage::Prepare, Stage::PreHook, Stage::Work, Stage::PostHook]
    );
    assert_eq!(run(None, false).len(), 7);
    assert_eq!(run(None, true)[6], Stage::FollowUp);
    assert_eq!(next_stage(Stage::Done, true, true), Stage::Done);
}

#[test]
fn how_a_program_ends() {
    let e = setup_failed("no such file".to_string());
    assert_eq!((e.code, e.message.as_deref(), e.as_json), (1, Some("no such file"), false));
    let ok: Result<(), cmd_forget::ForgetError> = Ok(());
    assert_eq!(command_ended(&ok, true).code, 0);
    assert_eq!(command_ended(&ok, true).message, None);
    let err: Result<(), _> = Err(cmd_forget::ForgetError::Interrupted);
    let e = command_ended(&err, true);
    assert_eq!((e.code, e.message.as_deref(), e.as_json), (130, Some("forget interrupted by user"), true));
    assert_eq!(outcome(&err).0, 130);
    let other = |code| Err::<(), OtherError>(OtherError { code, message: "no".to_string() });
    assert_eq!(command_ended(&other(7), false).code, 7);
    assert_eq!(command_ended(&other(0), false).code, 1);
    assert_eq!(command_ended(&other(7), false).message.as_deref(), Some("no"));
}

#[test]
fn the_first_error_counts() {
    let none: Vec<Result<(), u8>> = vec![Ok(()), Ok(())];
    assert_eq!(all_done(none), Ok(()));
    assert_eq!(all_done(vec![Ok(()), Err(4), Err(5)]), Err(4));
    assert_eq!(all_done(Vec::<Result<(), u8>>::new()), Ok(()));
}

#[test]
fn errors_of_the_repository() {
    let all = [
        MapacheError::Auth(ErrorText::plain("a".to_string())),
        MapacheError::Repo(ErrorText::plain("b".to_string())),
        MapacheError::Serialization(ErrorText::plain("c".to_string())),
        MapacheError::TaskPanicked(ErrorText::plain("d".to_string())),
        MapacheError::Other(ErrorText::plain("e".to_string())),
    ];
    let said: Vec<String> = all.iter().map(|e| e.inner()).collect();
    assert_eq!(said, ["a", "b", "c", "d", "e"]);
    let auth: Vec<bool> = all.iter().map(|e| e.is_auth()).collect();
    assert_eq!(auth, [true, false, false, false, false]);
    let e = cmd_forget::ForgetError::Repo(MapacheError::Repo(ErrorText::plain("gone".to_string())));
    assert_eq!((e.to_exit_code(), e.to_text()), (1, "gone".to_string()));
    let both = || ErrorText { inner: "gone".to_string(), shown: "repository error: gone".to_string() };
    let e = MapacheError::Repo(both());
    assert_eq!((e.inner(), e.shown()), ("gone".to_string(), "repository error: gone".to_string()));
    assert_eq!(cmd_forget::ForgetError::Repo(e).to_text(), "repository error: gone");
    let e = cmd_restore::snapshot_found::<u8>(Err(MapacheError::Repo(both()))).unwrap_err();
    assert_eq!(e.to_text(), "snapshot not found: gone");
    let e = cmd_snapshot::resolve_parent_snapshot::<u8>(Err(MapacheError::Repo(both()))).unwrap_err();
    assert_eq!(e.to_text(), "parent snapshot not found: repository error: gone");
}
