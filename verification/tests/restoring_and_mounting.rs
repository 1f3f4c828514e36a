//! `restore` and `mount`.

use mapache::cmd_mount::{self, MountError, MountOptions, MountStep, Place};
use mapache::cmd_restore::{
    after_restore, closing_line, delete_ended, invalid_target, prefix_to_strip, restore_ended, restore_settings,
    snapshot_found, sync_opts, CmdArgs, RestoreError, RestoreTexts, Strategy, SyncOpts,
};
use mapache::errors::{ErrorText, MapacheError, ToExitCode};
use mapache::report::{dry_run_label, dry_run_prefix, Style};
use mapache::sizes::Single;

fn gone() -> MapacheError {
    MapacheError::Repo(ErrorText::plain("gone".to_string()))
}

#[test]
fn exit_codes_and_messages_of_restore() {
    let s = || "x".to_string();
    let all = [
        (RestoreError::RepoOpenFail(s()), 10, "failed to open repository: x"),
        (RestoreError::SnapshotNotFound(s()), 20, "snapshot not found: x"),
        (RestoreError::TargetError(s()), 21, "target path error: x"),
        (RestoreError::RestoreFailed(s()), 30, "restore failed: x"),
        (RestoreError::Interrupted, 130, "restore interrupted by user"),
        (RestoreError::Repo(MapacheError::Other(ErrorText::plain(s()))), 1, "x"),
        (RestoreError::Io(s()), 1, "x"),
    ];
    for (e, code, text) in all {
        assert_eq!(e.to_exit_code(), code);
        assert_eq!(e.to_text(), text);
    }
}

#[test]
fn exit_codes_and_messages_of_mount() {
    let s = || "x".to_string();
    let all = [
        (MountError::RepoOpenFail(s()), 10, "failed to open repository: x"),
        (MountError::MountFailed(s()), 20, "mount failed: x"),
        (MountError::Interrupted, 130, "mount interrupted"),
        (MountError::Repo(MapacheError::Other(ErrorText::plain(s()))), 1, "x"),
        (MountError::Io(s()), 1, "x"),
    ];
    for (e, code, text) in all {
        assert_eq!(e.to_exit_code(), code);
        assert_eq!(e.to_text(), text);
    }
}

#[test]
fn snapshot_to_restore() {
    assert_eq!(snapshot_found(Ok(Some(7))).unwrap(), 7);
    assert_eq!(
        snapshot_found::<u8>(Ok(None)).unwrap_err().to_text(),
        "snapshot not found: no snapshot matches the given identifier"
    );
    assert_eq!(
        snapshot_found::<u8>(Err(gone())).unwrap_err().to_text(),
        "snapshot not found: gone"
    );
}

#[test]
fn settings_of_a_restore() {
    assert_eq!(
        restore_settings(&CmdArgs::default()).unwrap_err().to_text(),
        "target path error: target path is required. use --target or set it in config file."
    );
    let args = CmdArgs { target: Some("/t".to_string()), ..CmdArgs::default() };
    let s = restore_settings(&args).unwrap();
    assert_eq!(s.target, "/t");
    assert_eq!(s.strategy, Strategy::Fail);
    assert!(s.preallocate);
    assert!(!s.dry_run && !s.delete && !s.no_preserve_root && !s.quit_on_error && !s.verify && !s.strip_prefix);
    assert_eq!(s.batch_size, None);
    assert_eq!(prefix_to_strip(&s, Some("/p".to_string())), None);
    let args = CmdArgs {
        sparse: Some(true),
        strip_prefix: Some(true),
        strategy: Some(Strategy::Newer),
        batch_size: Some(9),
        dry_run: true,
        ..args
    };
    let s = restore_settings(&args).unwrap();
    assert!(!s.preallocate && s.dry_run && s.strip_prefix);
    assert_eq!(s.strategy, Strategy::Newer);
    assert_eq!(s.batch_size, Some(9));
    assert_eq!(prefix_to_strip(&s, Some("/p".to_string())), Some("/p".to_string()));
    assert_eq!(prefix_to_strip(&s, None), None);
}

#[test]
fn how_a_restore_ends() {
    let r = restore_ended(Ok(()), true);
    assert!(r.announce && r.result.is_ok());
    let r = restore_ended(Err(gone()), true);
    assert!(r.announce && matches!(r.result, Err(RestoreError::Interrupted)));
    let r = restore_ended(Err(gone()), false);
    assert!(!r.announce);
    assert_eq!(r.result.unwrap_err().to_text(), "restore failed: gone");
    assert!(delete_ended(Ok(()), true).is_ok());
    assert!(matches!(delete_ended(Err(gone()), true), Err(RestoreError::Interrupted)));
    assert_eq!(
        delete_ended(Err(gone()), false).unwrap_err().to_text(),
        "restore failed: delete failed: gone"
    );
    assert_eq!(invalid_target("x").to_text(), "target path error: invalid target path: x");
}

#[test]
fn what_restore_says() {
    let t = |prefix: String| RestoreTexts {
        prefix,
        items: "2 items".to_string(),
        bytes: "1 KiB".to_string(),
        duration: "3s".to_string(),
        errors: "0 errors".to_string(),
        warnings: "1 warning".to_string(),
        skipped: "5 B".to_string(),
    };
    let plain = Style { before: String::new(), after: String::new() };
    let bold = Style { before: "\u{1b}[1m".to_string(), after: "\u{1b}[0m".to_string() };
    assert_eq!(dry_run_label(), "[DRY RUN]");
    assert_eq!(dry_run_prefix(true, &bold), "\u{1b}[1m[DRY RUN]\u{1b}[0m ");
    assert_eq!(dry_run_prefix(false, &bold), "");
    assert_eq!(
        closing_line(&t(dry_run_prefix(false, &plain)), 0),
        "Restored 2 items (1 KiB) in 3s with 0 errors and 1 warning"
    );
    assert_eq!(
        closing_line(&t(dry_run_prefix(true, &plain)), 5),
        "[DRY RUN] Restored 2 items (1 KiB) in 3s with 0 errors and 1 warning, 5 B skipped"
    );
}

fn mount(create_mountpoint: bool, bundle: bool) -> cmd_mount::CmdArgs {
    cmd_mount::CmdArgs {
        mountpoint: "/m".to_string(),
        bundle,
        allow_other: true,
        create_mountpoint,
        metadata_only: false,
        data_cache_size_mib: Single { bits: 64.0f32.to_bits() },
        internal_password: None,
    }
}

#[test]
fn mountpoints() {
    assert_eq!(cmd_mount::mountpoint_of(&mount(true, false), Place::Nothing).unwrap(), true);
    assert_eq!(cmd_mount::mountpoint_of(&mount(true, false), Place::Directory).unwrap(), false);
    assert_eq!(cmd_mount::mountpoint_of(&mount(false, false), Place::Directory).unwrap(), false);
    assert_eq!(
        cmd_mount::mountpoint_of(&mount(false, false), Place::Nothing).unwrap_err().to_text(),
        "mount failed: mountpoint doesn't exist"
    );
    assert_eq!(
        cmd_mount::mountpoint_of(&mount(true, false), Place::Other).unwrap_err().to_text(),
        "mount failed: mountpoint must be a directory"
    );
}

#[test]
fn bundles_are_told_by_their_extension() {
    assert!(cmd_mount::is_bundle(&mount(false, true), false, None));
    assert!(cmd_mount::is_bundle(&mount(false, false), true, Some("mapache")));
    assert!(!cmd_mount::is_bundle(&mount(false, false), false, Some("mapache")));
    assert!(!cmd_mount::is_bundle(&mount(false, false), true, Some("Mapache")));
    assert!(!cmd_mount::is_bundle(&mount(false, false), true, None));
}

#[test]
fn what_mount_is_run_with() {
    assert_eq!(
        cmd_mount::mount_options(&mount(false, false)),
        MountOptions { allow_other: true, metadata_only: false, data_cache_size: 64 * 1024 * 1024 }
    );
    let steps = [
        (MountStep::Create, "mount failed: could not create mount point: x"),
        (MountStep::Password, "mount failed: password prompt failed: x"),
        (MountStep::Bundle, "mount failed: failed to open bundle: x"),
        (MountStep::Mount, "mount failed: x"),
    ];
    for (step, text) in steps {
        assert_eq!(cmd_mount::step_error(step, "x").to_text(), text);
    }
}

#[test]
fn deleting_follows_a_good_restore() {
    let settings = |delete: Option<bool>, dry_run: bool| {
        let args = CmdArgs {
            target: Some("/t".to_string()),
            delete,
            dry_run,
            no_preserve_root: Some(true),
            ..CmdArgs::default()
        };
        restore_settings(&args).unwrap()
    };
    let well = || restore_ended(Ok(()), false);
    assert_eq!(after_restore(&settings(Some(true), false), well()).unwrap(), true);
    assert_eq!(after_restore(&settings(Some(false), false), well()).unwrap(), false);
    assert_eq!(after_restore(&settings(None, false), well()).unwrap(), false);
    let failed = after_restore(&settings(Some(true), false), restore_ended(Err(gone()), false));
    assert_eq!(failed.unwrap_err().to_text(), "restore failed: gone");
    let stopped = after_restore(&settings(Some(true), false), restore_ended(Err(gone()), true));
    assert!(matches!(stopped, Err(RestoreError::Interrupted)));
    assert_eq!(
        sync_opts(&settings(Some(true), true)),
        SyncOpts { dry_run: true, no_preserve_root: true }
    );
}
