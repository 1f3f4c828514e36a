//! Credentials and locks.

use mapache::access::{
    session_step, Needs, OpenAction, OpenEvent, Opening, SessionAction, SessionEvent, MAX_PASSWORD_RETRIES,
};
use mapache::cmd_bundle;
use mapache::cmd_forget;
use mapache::cmd_mount;
use mapache::cmd_restore;
use mapache::cmd_snapshot;
use mapache::errors::{ErrorText, MapacheError};
use mapache::global::Defaults;
use mapache::options::Compression;
use mapache::sizes::Single;

fn refused() -> OpenEvent {
    OpenEvent::Failed(MapacheError::Auth(ErrorText::plain("wrong password".to_string())))
}

fn broken() -> OpenEvent {
    OpenEvent::Failed(MapacheError::Repo(ErrorText::plain("no manifest".to_string())))
}

#[test]
fn provided_credentials_are_tried_once() {
    let mut o = Opening::new();
    assert!(matches!(o.step(OpenEvent::LookedUp(true)), OpenAction::TryOpen));
    assert!(matches!(o.step(refused()), OpenAction::GiveUp(MapacheError::Auth(_))));
    let mut o = Opening::new();
    o.step(OpenEvent::LookedUp(true));
    assert!(matches!(o.step(OpenEvent::Opened), OpenAction::Done));
}

#[test]
fn typed_credentials_are_asked_for_three_times() {
    assert_eq!(MAX_PASSWORD_RETRIES, 3);
    let mut o = Opening::new();
    assert!(matches!(o.step(OpenEvent::LookedUp(false)), OpenAction::Prompt { again: false }));
    assert!(matches!(o.step(OpenEvent::Prompted), OpenAction::TryOpen));
    assert!(matches!(o.step(refused()), OpenAction::Prompt { again: true }));
    assert!(matches!(o.step(OpenEvent::Prompted), OpenAction::TryOpen));
    assert!(matches!(o.step(refused()), OpenAction::Prompt { again: true }));
    assert!(matches!(o.step(OpenEvent::Prompted), OpenAction::TryOpen));
    match o.step(refused()) {
        OpenAction::GiveUp(MapacheError::Auth(s)) => assert_eq!(s.inner, "wrong password"),
        other => panic!("{other:?}"),
    }
}

#[test]
fn only_refusals_are_retried() {
    let mut o = Opening::new();
    o.step(OpenEvent::LookedUp(false));
    o.step(OpenEvent::Prompted);
    match o.step(broken()) {
        OpenAction::GiveUp(MapacheError::Repo(s)) => assert_eq!(s.inner, "no manifest"),
        other => panic!("{other:?}"),
    }
    let mut o = Opening::new();
    o.step(OpenEvent::LookedUp(false));
    match o.step(OpenEvent::PromptFailed("no terminal".to_string())) {
        OpenAction::GiveUp(MapacheError::Auth(s)) => assert_eq!(s.inner, "no terminal"),
        other => panic!("{other:?}"),
    }
}

#[test]
fn a_lock_is_released_once() {
    let run = |no_lock: bool, opens: bool| {
        let mut actions = vec![];
        let mut event = SessionEvent::Called;
        loop {
            let action = session_step(no_lock, event);
            actions.push(action);
            event = match action {
                SessionAction::Open { .. } if opens => SessionEvent::Opened,
                SessionAction::Open { .. } => SessionEvent::NotOpened,
                SessionAction::Work { .. } => SessionEvent::Ended,
                SessionAction::Unlock => SessionEvent::Unlocked,
                SessionAction::Finish => return actions,
            };
        }
    };
    assert_eq!(
        run(false, true),
        [
            SessionAction::Open { locked: true },
            SessionAction::Work { locked: true },
            SessionAction::Unlock,
            SessionAction::Finish,
        ]
    );
    assert_eq!(
        run(true, true),
        [
            SessionAction::Open { locked: false },
            SessionAction::Work { locked: false },
            SessionAction::Finish,
        ]
    );
    assert_eq!(run(false, false), [SessionAction::Open { locked: true }, SessionAction::Finish]);
}

#[test]
fn what_each_command_needs() {
    let dry = cmd_forget::CmdArgs { dry_run: true, ..cmd_forget::CmdArgs::default() };
    assert_eq!(dry.needs(), Needs { dry_backend: true, exclusive_lock: true });
    assert_eq!(
        cmd_forget::CmdArgs::default().needs(),
        Needs { dry_backend: false, exclusive_lock: true }
    );
    let dry = cmd_snapshot::CmdArgs { dry_run: true, ..cmd_snapshot::CmdArgs::default() };
    assert_eq!(dry.needs(), Needs { dry_backend: true, exclusive_lock: false });
    let dry = cmd_restore::CmdArgs { dry_run: true, ..cmd_restore::CmdArgs::default() };
    assert_eq!(dry.needs(), Needs { dry_backend: false, exclusive_lock: false });
    let defaults = Defaults {
        pack_size_mib: Single { bits: 0 },
        compression: Compression::Fast,
        verbosity: 0,
        snapshot_readers: 1,
        snapshot_packers: 1,
        gc_tolerance_pct: Single { bits: 0 },
    };
    assert_eq!(
        cmd_bundle::CmdArgs::with_defaults(&defaults).needs(),
        Needs { dry_backend: false, exclusive_lock: false }
    );
    let mount = cmd_mount::CmdArgs {
        mountpoint: "/m".to_string(),
        bundle: false,
        allow_other: false,
        create_mountpoint: false,
        metadata_only: false,
        data_cache_size_mib: Single { bits: 0 },
        internal_password: None,
    };
    assert_eq!(mount.needs(), Needs { dry_backend: false, exclusive_lock: false });
}
