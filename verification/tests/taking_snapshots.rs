//! `snapshot`.

use mapache::cmd_snapshot::{
    archive_ended, archive_plan, check_args, check_sources, completion_of, created_line, exclude_file_error, fill_summary,
    filter_paths, outcome_note, parent_note, parent_wanted, resolve_parent_snapshot, should_save, show_cli_summary,
    source_set, sources_of, stats_fit, step_error, sums_fit, tags_of, ArchiveEnded, CmdArgs, DiffCounts, OutcomeNote, ParentNote, RepoStats,
    SizePair, SnapshotError, SnapshotOutcome, SnapshotRunOptions, SnapshotStep, SnapshotSummary, SourceFound, Sources,
};
use mapache::errors::{ErrorText, MapacheError, ToExitCode};
use mapache::global::Defaults;
use mapache::ids::ID;
use mapache::options::{Compression, UseSnapshot};
use mapache::report::{Cell, Row};
use mapache::sizes::Single;

fn defaults() -> Defaults {
    Defaults {
        pack_size_mib: Single { bits: 0 },
        compression: Compression::Fast,
        verbosity: 0,
        snapshot_readers: 4,
        snapshot_packers: 2,
        gc_tolerance_pct: Single { bits: 0 },
    }
}

fn options(args: &CmdArgs) -> SnapshotRunOptions {
    SnapshotRunOptions::from_args(args, &defaults())
}

fn summary() -> SnapshotSummary {
    SnapshotSummary {
        processed_items_count: 5,
        processed_bytes: 500,
        raw_bytes: 0,
        encoded_bytes: 0,
        meta_raw_bytes: 0,
        meta_encoded_bytes: 0,
        total_raw_bytes: 0,
        total_encoded_bytes: 0,
        data_blobs: 0,
        meta_blobs: 0,
        diff_counts: DiffCounts { new_files: 3, unchanged_dirs: 2, ..DiffCounts::default() },
    }
}

fn stats() -> RepoStats {
    RepoStats {
        data: SizePair { raw: 100, encoded: 60 },
        meta: SizePair { raw: 10, encoded: 8 },
        index: SizePair { raw: 4, encoded: 3 },
        blobs: 7,
        meta_blobs: 2,
    }
}

fn shown(rows: &[Row]) -> Vec<String> {
    rows.iter()
        .map(|r| {
            let cells: Vec<String> = r
                .cells
                .iter()
                .map(|c| match c {
                    Cell::Text(s) => s.clone(),
                    Cell::Count(n) => n.to_string(),
                    Cell::Size(n) => format!("{n}B"),
                    Cell::Share { part, whole } => format!("{part}/{whole}"),
                })
                .collect();
            format!("{}: {}", r.label, cells.join(" "))
        })
        .collect()
}

#[test]
fn exit_codes_and_messages_of_snapshot() {
    let s = || "x".to_string();
    let all = [
        (SnapshotError::BackendError(s()), 11, "backend error: x"),
        (SnapshotError::RepoOpenFail(s()), 12, "failed to open repository: x"),
        (SnapshotError::SourcePathError(s()), 20, "invalid source path: x"),
        (SnapshotError::ParentNotFound(s()), 21, "parent snapshot not found: x"),
        (SnapshotError::SnapshotFailed(s()), 30, "snapshot creation failed: x"),
        (SnapshotError::Interrupted, 130, "snapshot interrupted by user"),
        (SnapshotError::Repo(MapacheError::Other(ErrorText::plain(s()))), 1, "x"),
        (SnapshotError::Io(s()), 1, "x"),
    ];
    for (e, code, text) in all {
        assert_eq!(e.to_exit_code(), code);
        assert_eq!(e.to_text(), text);
    }
}

#[test]
fn options_get_their_defaults() {
    let args = CmdArgs {
        paths: vec!["/a".to_string(), "/b".to_string()],
        exclude: Some(vec!["x".to_string()]),
        tags_str: Some("t".to_string()),
        ..CmdArgs::default()
    };
    let o = options(&args);
    assert_eq!(o.paths, ["/a", "/b"]);
    assert_eq!(o.exclude, Some(vec!["x".to_string()]));
    assert_eq!(o.tags.as_deref(), Some("t"));
    assert_eq!((o.num_readers, o.num_packers), (4, 2));
    assert!(!o.as_root && !o.no_scan && !o.skip_if_unchanged && !o.with_atime && !o.stdin);
    let args = CmdArgs { num_readers: Some(9), as_root: Some(true), ..CmdArgs::default() };
    let o = options(&args);
    assert_eq!(o.num_readers, 9);
    assert!(o.as_root);
    assert_eq!(o.exclude, None);
}

#[test]
fn options_are_checked_first() {
    let stdin = CmdArgs { stdin: true, ..CmdArgs::default() };
    let refused = check_args(&stdin, false, true, false).unwrap_err();
    assert_eq!(
        refused.to_text(),
        "invalid source path: --stdin requires --auth-file or both MAPACHE_USERNAME and \
         MAPACHE_PASSWORD env vars (stdin is consumed by backup data, \
         so password cannot be prompted interactively)"
    );
    assert!(check_args(&stdin, false, true, true).is_ok());
    assert!(check_args(&stdin, true, false, false).is_ok());
    assert_eq!(
        check_args(&CmdArgs::default(), true, true, true).unwrap_err().to_text(),
        "invalid source path: no source paths provided."
    );
    let paths = CmdArgs { paths: vec!["/a".to_string()], ..CmdArgs::default() };
    assert!(check_args(&paths, false, false, false).is_ok());
}

#[test]
fn source_paths_are_checked_in_order() {
    let absent = || SourceFound::Absent { shown: "\"/a\"".to_string() };
    let invalid = || SourceFound::Invalid { shown: "\"b\"".to_string(), why: "bad".to_string() };
    let locked = || SourceFound::Unreachable { shown: "\"/c\"".to_string(), why: "denied".to_string() };
    assert!(check_sources(&vec![SourceFound::Present, SourceFound::Present]).is_ok());
    assert_eq!(
        check_sources(&vec![SourceFound::Present, absent(), invalid()]).unwrap_err().to_text(),
        "invalid source path: source path does not exist: \"/a\""
    );
    assert_eq!(
        check_sources(&vec![invalid(), absent()]).unwrap_err().to_text(),
        "invalid source path: error processing path \"b\": bad"
    );
    assert_eq!(
        check_sources(&vec![locked()]).unwrap_err().to_text(),
        "invalid source path: error accessing path \"/c\": denied"
    );
}

#[test]
fn parents() {
    assert_eq!(parent_wanted(&CmdArgs::default()), Some(UseSnapshot::Latest));
    let given = UseSnapshot::SnapshotId("ab".to_string());
    let args = CmdArgs { parent: Some(given.clone()), ..CmdArgs::default() };
    assert_eq!(parent_wanted(&args), Some(given.clone()));
    assert_eq!(parent_wanted(&CmdArgs { no_parent: true, ..args.clone() }), None);
    assert_eq!(parent_wanted(&CmdArgs { stdin: true, ..args }), None);
    assert_eq!(resolve_parent_snapshot(Ok(Some(3))).unwrap(), Some(3));
    assert_eq!(resolve_parent_snapshot::<u8>(Ok(None)).unwrap(), None);
    let e = MapacheError::Repo(ErrorText::plain("no such".to_string()));
    assert_eq!(
        resolve_parent_snapshot::<u8>(Err(e)).unwrap_err().to_text(),
        "parent snapshot not found: no such"
    );
    assert_eq!(parent_note(true, true), ParentNote::FullScan);
    assert_eq!(parent_note(false, true), ParentNote::UsingParent);
    assert_eq!(parent_note(false, false), ParentNote::NoParent);
}

#[test]
fn roots() {
    let one = CmdArgs { paths: vec!["/a".to_string()], ..CmdArgs::default() };
    assert_eq!(sources_of(&options(&one), true).unwrap(), Sources::Given);
    let root = CmdArgs { as_root: Some(true), ..one };
    assert_eq!(sources_of(&options(&root), true).unwrap(), Sources::InsideRoot);
    assert_eq!(
        sources_of(&options(&root), false).unwrap_err().to_text(),
        "invalid source path: the snapshot root must be a directory"
    );
    let two = CmdArgs { paths: vec!["/a".to_string(), "/b".to_string()], ..root };
    assert_eq!(
        sources_of(&options(&two), true).unwrap_err().to_text(),
        "invalid source path: only one path can be the snapshot root"
    );
}

#[test]
fn tags_of_a_snapshot() {
    let tagged = |s: Option<&str>| {
        let args = CmdArgs { tags_str: s.map(|s| s.to_string()), ..CmdArgs::default() };
        tags_of(&options(&args)).items
    };
    assert_eq!(tagged(None), Vec::<String>::new());
    assert_eq!(tagged(Some("[]")), Vec::<String>::new());
    assert_eq!(tagged(Some("work,[],home")), ["home", "work"]);
}

#[test]
fn paths_to_archive() {
    let given: Vec<String> = ["/b", "/a/x", "/b", "/a"].map(String::from).to_vec();
    let set = source_set(&given);
    assert_eq!(set.items, ["/a", "/a/x", "/b"]);
    assert_eq!(filter_paths(&set.items, &vec![true, false, true]), ["/a", "/b"]);
    assert_eq!(filter_paths(&vec![], &vec![]), Vec::<String>::new());
}

#[test]
fn what_is_archived() {
    let args = CmdArgs { no_scan: Some(true), with_atime: Some(true), ..CmdArgs::default() };
    let paths = || vec!["/a".to_string()];
    let plan = archive_plan(&options(&args), paths(), "/".to_string(), Some(vec!["x".to_string()]), true);
    assert_eq!(plan.paths, ["/a"]);
    assert_eq!(plan.exclude, ["x"]);
    assert!(plan.use_parent && plan.no_scan && plan.with_atime && !plan.stdin);
    let plan = archive_plan(&options(&args), paths(), "/r".to_string(), None, false);
    assert_eq!((plan.root.as_str(), plan.exclude.len(), plan.use_parent), ("/r", 0, false));
    let stdin = CmdArgs { stdin: true, with_atime: Some(true), ..CmdArgs::default() };
    let plan = archive_plan(&options(&stdin), paths(), "/r".to_string(), Some(vec!["x".to_string()]), true);
    assert_eq!(plan.paths, ["/stdin"]);
    assert_eq!(plan.root, "/");
    assert!(plan.exclude.is_empty());
    assert!(!plan.use_parent && plan.no_scan && !plan.with_atime && plan.stdin);
}

#[test]
fn how_an_archiving_ends() {
    let failed = || MapacheError::Other(ErrorText::plain("disk full".to_string()));
    assert!(matches!(archive_ended(Ok(3), true), ArchiveEnded::Archived(3)));
    assert!(matches!(archive_ended::<u8>(Err(failed()), true), ArchiveEnded::Interrupted));
    match archive_ended::<u8>(Err(failed()), false) {
        ArchiveEnded::Failed(e) => assert_eq!(e.to_text(), "snapshot creation failed: disk full"),
        other => panic!("{other:?}"),
    }
}

#[test]
fn unchanged_snapshots_can_be_skipped() {
    let a = ID { hi: 1, lo: 1 };
    let b = ID { hi: 1, lo: 2 };
    assert!(should_save(false, Some(a), a));
    assert!(!should_save(true, Some(a), a));
    assert!(should_save(true, Some(a), b));
    assert!(should_save(true, None, a));
}

#[test]
fn sums_of_a_snapshot() {
    let f = fill_summary(summary(), &stats());
    assert_eq!((f.raw_bytes, f.encoded_bytes), (100, 60));
    assert_eq!((f.meta_raw_bytes, f.meta_encoded_bytes), (10, 8));
    assert_eq!((f.total_raw_bytes, f.total_encoded_bytes), (110, 68));
    assert_eq!((f.data_blobs, f.meta_blobs), (7, 2));
    assert_eq!(f.processed_bytes, 500);
    let id = ID { hi: 0, lo: 9 };
    let c = completion_of(id, summary(), &stats(), SizePair { raw: 20, encoded: 15 }, 77);
    assert_eq!(c.snapshot_id, id);
    assert_eq!((c.meta_without_index_raw, c.meta_without_index_encoded), (30, 23));
    assert_eq!((c.summary.meta_raw_bytes, c.summary.meta_encoded_bytes), (34, 26));
    assert_eq!((c.summary.total_raw_bytes, c.summary.total_encoded_bytes), (134, 86));
    assert_eq!(c.process_summary.processed_items_count, 5);
    assert_eq!(c.process_summary.diff_counts.new_files, 3);
    assert_eq!(c.duration_nanos, 77);
    assert_eq!(outcome_note(&SnapshotOutcome::Saved(Box::new(c)), true).unwrap(), OutcomeNote::Json);
    assert_eq!(outcome_note(&SnapshotOutcome::Saved(Box::new(c)), false).unwrap(), OutcomeNote::Tables);
    assert_eq!(outcome_note(&SnapshotOutcome::SkippedNoChanges, false).unwrap(), OutcomeNote::NoChanges);
    assert_eq!(outcome_note(&SnapshotOutcome::SkippedNoChanges, true).unwrap(), OutcomeNote::Silent);
    assert!(matches!(
        outcome_note(&SnapshotOutcome::Interrupted, true),
        Err(SnapshotError::Interrupted)
    ));
}

#[test]
fn tables_of_a_snapshot() {
    let id = ID { hi: 0, lo: 9 };
    let c = completion_of(id, summary(), &stats(), SizePair { raw: 20, encoded: 15 }, 0);
    let t = show_cli_summary(&c, false);
    assert_eq!(t.title, "Changes since parent snapshot:");
    assert_eq!(t.change_headings, ["", "new", "changed", "deleted", "unchanged"]);
    assert_eq!(t.size_headings, ["", "Raw", "Compressed"]);
    assert_eq!(created_line("ab12"), "Created snapshot ab12");
    assert_eq!(shown(&t.changes), ["Files: 3 0 0 0", "Dirs: 0 0 0 2"]);
    assert_eq!(t.created, Some(id));
    assert_eq!(t.heading, "This snapshot added:");
    assert_eq!(shown(&t.sizes), ["Data: 100B 60B", "Metadata: 34B 26B"]);
    assert_eq!(shown(&[t.total]), ["Total: 134B 86B"]);
    let t = show_cli_summary(&c, true);
    assert_eq!(t.created, None);
    assert_eq!(t.heading, "This snapshot would add:");
}

#[test]
fn what_snapshot_says() {
    let steps = [
        (SnapshotStep::Backend, "snapshot creation failed: failed to initialize backend: x"),
        (SnapshotStep::PackSaver, "snapshot creation failed: failed to initialize pack saver: x"),
        (SnapshotStep::Finalize, "snapshot creation failed: failed to finalize snapshot: x"),
    ];
    for (step, text) in steps {
        assert_eq!(step_error(step, "x").to_text(), text);
    }
    assert_eq!(
        exclude_file_error("x").to_text(),
        "invalid source path: error reading exclude file: x"
    );
}

#[test]
fn sums_that_do_not_fit() {
    let zero = SizePair { raw: 0, encoded: 0 };
    assert!(stats_fit(&stats()) && sums_fit(&stats(), zero));
    let full = RepoStats { data: SizePair { raw: u64::MAX - 10, encoded: 0 }, ..stats() };
    assert!(stats_fit(&full));
    assert!(!sums_fit(&full, zero));
    let over = RepoStats { meta: SizePair { raw: 0, encoded: u64::MAX }, ..stats() };
    assert!(!stats_fit(&over));
    assert!(!sums_fit(&stats(), SizePair { raw: 0, encoded: u64::MAX }));
}
