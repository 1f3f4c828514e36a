//! `forget`.

use mapache::cmd_forget::{
    closing_line, considered, deserialize_retention_opt, forget_choice, forget_ended, forget_plan, gc_args,
    keep_all_but, looks_on, named_ids, not_found, only_those, plan_by_name, retention_rules, step_error, CmdArgs, ForgetChoice, ForgetError, ForgetStep,
    Removal, RetentionRule, RetentionValue,
};
use mapache::errors::{ErrorText, MapacheError, ToExitCode};
use mapache::global::Defaults;
use mapache::ids::{IdSet, ID};
use mapache::options::Compression;
use mapache::sizes::Single;
use mapache::snapshots::SnapshotEntry;
use mapache::units::Duration;

fn id(n: u128) -> ID {
    ID { hi: n % 3, lo: n }
}

fn entry(n: u128, timestamp: i128) -> SnapshotEntry {
    SnapshotEntry { id: id(n), timestamp }
}

fn numbers(entries: &[SnapshotEntry]) -> Vec<u128> {
    entries.iter().map(|e| e.id.lo).collect()
}

#[test]
fn exit_codes_and_messages_of_forget() {
    let s = || "x".to_string();
    let all = [
        (ForgetError::RepoOpenFail(s()), 10, "failed to open repository: x"),
        (ForgetError::InvalidRule(s()), 20, "invalid retention rule: x"),
        (ForgetError::ForgetFailed(s()), 30, "forget failed: x"),
        (ForgetError::Interrupted, 130, "forget interrupted by user"),
        (ForgetError::Repo(MapacheError::Other(ErrorText::plain(s()))), 1, "x"),
        (ForgetError::Io(s()), 1, "x"),
    ];
    for (e, code, text) in all {
        assert_eq!(e.to_exit_code(), code);
        assert_eq!(e.to_text(), text);
    }
}

#[test]
fn numbers_in_the_configuration() {
    assert_eq!(deserialize_retention_opt(None), Ok(None));
    assert_eq!(deserialize_retention_opt(Some(RetentionValue::Number(3))), Ok(Some(3)));
    assert_eq!(
        deserialize_retention_opt(Some(RetentionValue::Number(0))),
        Err("retention number must be greater than 0".to_string())
    );
    assert_eq!(
        deserialize_retention_opt(Some(RetentionValue::Text("all".to_string()))),
        Ok(Some(usize::MAX))
    );
    assert_eq!(
        deserialize_retention_opt(Some(RetentionValue::Text("0".to_string()))),
        Err("n must be greater than 0".to_string())
    );
}

#[test]
fn rules_in_their_order() {
    let args = CmdArgs {
        keep_last: Some(1),
        keep_within: Some(Duration { millis: 5 }),
        keep_yearly: Some(2),
        keep_monthly: Some(3),
        keep_weekly: Some(4),
        keep_daily: Some(5),
        keep_hourly: Some(6),
        keep_tags: Some("b,a".to_string()),
        ..CmdArgs::default()
    };
    let rules = retention_rules(&args).unwrap();
    assert_eq!(rules.len(), 8);
    assert!(matches!(rules[0], RetentionRule::KeepLast(1)));
    assert!(matches!(rules[1], RetentionRule::KeepWithin(Duration { millis: 5 })));
    assert!(matches!(rules[2], RetentionRule::KeepYearly(2)));
    assert!(matches!(rules[3], RetentionRule::KeepMonthly(3)));
    assert!(matches!(rules[4], RetentionRule::KeepWeekly(4)));
    assert!(matches!(rules[5], RetentionRule::KeepDaily(5)));
    assert!(matches!(rules[6], RetentionRule::KeepHourly(6)));
    match &rules[7] {
        RetentionRule::KeepTags(t) => assert_eq!(t.items, ["a", "b"]),
        other => panic!("{other:?}"),
    }
    let some = CmdArgs { keep_hourly: Some(6), keep_yearly: Some(2), ..CmdArgs::default() };
    let rules = retention_rules(&some).unwrap();
    assert!(matches!(rules[..], [RetentionRule::KeepYearly(2), RetentionRule::KeepHourly(6)]));
}

#[test]
fn there_has_to_be_a_rule() {
    let args = CmdArgs { keep_min: Some(3), ..CmdArgs::default() };
    match forget_choice(&args) {
        Err(ForgetError::InvalidRule(s)) => assert_eq!(s, "at least one retention rule must be used."),
        other => panic!("{other:?}"),
    }
    let named = CmdArgs { forget: vec!["ab".to_string()], keep_last: Some(1), ..CmdArgs::default() };
    assert!(matches!(forget_choice(&named), Ok(ForgetChoice::Named)));
    let ruled = CmdArgs { keep_last: Some(1), ..CmdArgs::default() };
    assert!(matches!(forget_choice(&ruled), Ok(ForgetChoice::Rules(_))));
}

#[test]
fn snapshots_under_consideration() {
    let all = || vec![entry(1, 30), entry(2, 10), entry(3, 20), entry(4, -5), entry(5, 10)];
    let times: Vec<i128> = considered(all(), &None, &None).iter().map(|e| e.timestamp).collect();
    assert_eq!(times, [-5, 10, 10, 20, 30]);
    let tagged = Some(vec![id(1), id(3), id(4)]);
    assert_eq!(numbers(&considered(all(), &tagged, &None)), [4, 3, 1]);
    let hosts = Some(vec![id(3), id(2), id(4)]);
    assert_eq!(numbers(&considered(all(), &tagged, &hosts)), [4, 3]);
    assert_eq!(numbers(&considered(all(), &None, &Some(vec![]))), Vec::<u128>::new());
    assert_eq!(numbers(&only_those(&all(), &vec![id(5), id(1)])), [1, 5]);
}

#[test]
fn named_snapshots_go() {
    let entries = vec![entry(1, 1), entry(2, 2), entry(3, 3)];
    let keep = keep_all_but(&entries, &vec![id(2), id(9)]);
    assert!(keep.contains(&id(1)) && keep.contains(&id(3)));
    assert!(!keep.contains(&id(2)) && !keep.contains(&id(9)));
    let plan = forget_plan(&entries, &keep, false, false);
    assert_eq!(numbers(&plan.kept), [1, 3]);
    assert_eq!(numbers(&plan.removed), [2]);
    assert_eq!(plan.removals, [Removal::Mark(id(2))]);
}

#[test]
fn every_snapshot_stays_or_goes() {
    let entries: Vec<SnapshotEntry> = (0..20).map(|n| entry(n, n as i128)).collect();
    let mut keep = IdSet::new();
    for n in [0, 7, 8, 19, 40] {
        assert!(keep.insert(id(n)));
    }
    assert!(!keep.insert(id(7)));
    let plan = forget_plan(&entries, &keep, true, false);
    assert_eq!(numbers(&plan.kept), [0, 7, 8, 19]);
    assert_eq!(plan.kept.len() + plan.removed.len(), entries.len());
    assert_eq!(plan.removals.len(), plan.removed.len());
    assert_eq!(plan.removals[0], Removal::Delete(id(1)));
    let dry = forget_plan(&entries, &keep, true, true);
    assert_eq!(numbers(&dry.removed), numbers(&plan.removed));
    assert!(dry.removals.is_empty());
}

#[test]
fn what_forget_says() {
    assert_eq!(closing_line(true, "2 snapshots"), "This would remove 2 snapshots");
    assert_eq!(closing_line(false, "1 snapshot"), "Removed 1 snapshot");
    assert_eq!(not_found("ab").to_text(), "forget failed: snapshot not found: ab");
    let steps = [
        (ForgetStep::Load, "forget failed: failed to load snapshots: x"),
        (ForgetStep::Delete, "forget failed: failed to delete snapshot: x"),
        (ForgetStep::Mark, "forget failed: failed to mark snapshot for deletion: x"),
        (ForgetStep::Clean, "forget failed: gc failed: x"),
    ];
    for (step, text) in steps {
        assert_eq!(step_error(step, "x").to_text(), text);
    }
    assert!(forget_ended(false).is_ok());
    assert!(matches!(forget_ended(true), Err(ForgetError::Interrupted)));
}

#[test]
fn collecting_garbage_afterwards() {
    let defaults = Defaults {
        pack_size_mib: Single { bits: 0 },
        compression: Compression::Fast,
        verbosity: 0,
        snapshot_readers: 1,
        snapshot_packers: 1,
        gc_tolerance_pct: Single { bits: 5.0f32.to_bits() },
    };
    assert!(gc_args(&CmdArgs::default(), &defaults).is_none());
    let args = CmdArgs { run_gc: true, dry_run: true, ..CmdArgs::default() };
    let gc = gc_args(&args, &defaults).unwrap();
    assert_eq!(f32::from_bits(gc.tolerance.bits), 5.0);
    assert!(gc.dry_run && !gc.no_repack);
    let args = CmdArgs { run_gc: true, tolerance: Some(Single { bits: 7.0f32.to_bits() }), ..CmdArgs::default() };
    assert_eq!(f32::from_bits(gc_args(&args, &defaults).unwrap().tolerance.bits), 7.0);
}

#[test]
fn the_first_name_without_a_snapshot_is_told_of() {
    let names: Vec<String> = ["aa", "bb", "cc"].map(String::from).to_vec();
    let entries = vec![entry(1, 1), entry(2, 2), entry(3, 3)];
    let all = vec![Some(id(3)), Some(id(1)), Some(id(9))];
    assert_eq!(named_ids(&names, &all).unwrap(), [id(3), id(1), id(9)]);
    let plan = plan_by_name(&entries, &names, &all, true, false).unwrap();
    assert_eq!(numbers(&plan.kept), [2]);
    assert_eq!(plan.removals, [Removal::Delete(id(1)), Removal::Delete(id(3))]);
    let some = vec![Some(id(3)), None, None];
    assert_eq!(
        plan_by_name(&entries, &names, &some, true, false).unwrap_err().to_text(),
        "forget failed: snapshot not found: bb"
    );
    assert_eq!(
        named_ids(&names, &vec![None, Some(id(1)), None]).unwrap_err().to_text(),
        "forget failed: snapshot not found: aa"
    );
    assert!(named_ids(&vec![], &vec![]).unwrap().is_empty());
    assert!(looks_on(&vec![]) && looks_on(&all));
    assert!(!looks_on(&some));
}
