//! `bundle`, and the walk over a snapshot that is exported.

use mapache::cmd_bundle::{
    announces_start, bundle_root, choose_mode, creation_rows, destination, exclude_paths, export_error, export_rows,
    export_title, extraction_rows, import_closing, import_description, import_notice, import_plan, import_rows, import_summary,
    imported_snapshot,
    lengths_fit, load_error, mount_options, mountpoint_of, node_error, open_error, root_tree, scanned_bytes,
    snapshot_to_export, source_paths, step_error, summarizes_import, tree_error, BundleError, BundleIndexEntry, BundleStep, CmdArgs,
    ExportStep, GivenPath, Mode, NodeKind, NodeStep,
};
use mapache::cmd_mount::Place;
use mapache::cmd_snapshot::{DiffCounts, SnapshotProcessSummary};
use mapache::errors::{all_done, ErrorText, MapacheError, ToExitCode};
use mapache::export_walk::{BlobRef, BlobType, ExportWalk, TreeNode};
use mapache::global::{Defaults, GlobalArgs};
use mapache::ids::ID;
use mapache::options::{Compression, UseSnapshot};
use mapache::report::{Cell, Row};
use mapache::sizes::Single;
use mapache::units::moment_text;
use std::collections::{HashMap, HashSet};

fn defaults() -> Defaults {
    Defaults {
        pack_size_mib: Single { bits: 0 },
        compression: Compression::Fast,
        verbosity: 0,
        snapshot_readers: 4,
        snapshot_packers: 2,
        gc_tolerance_pct: Single { bits: 0 },
    }
}

fn args() -> CmdArgs {
    CmdArgs::with_defaults(&defaults())
}

fn global(repo: &str) -> GlobalArgs {
    let mut g = GlobalArgs::default_no_repo(&defaults());
    g.repo = repo.to_string();
    g
}

fn paths(n: usize) -> Vec<String> {
    (0..n).map(|i| format!("/p{i}")).collect()
}

fn id(n: u128) -> ID {
    ID { hi: n % 2, lo: n }
}

fn shown(rows: &[Row]) -> Vec<String> {
    rows.iter()
        .map(|r| {
            let cells: Vec<String> = r
                .cells
                .iter()
                .map(|c| match c {
                    Cell::Text(s) => s.clone(),
                    Cell::Count(n) => n.to_string(),
                    Cell::Size(n) => format!("{n}B"),
                    Cell::Share { part, whole } => format!("{part}/{whole}"),
                })
                .collect();
            format!("{}: {}", r.label, cells.join(" "))
        })
        .collect()
}

#[test]
fn exit_codes_and_messages_of_bundle() {
    let s = || "x".to_string();
    let all = [
        (BundleError::BundleFailed(s()), 20, "bundle failed: x"),
        (BundleError::Io(s()), 1, "x"),
        (BundleError::Repo(MapacheError::Other(ErrorText::plain(s()))), 1, "x"),
        (BundleError::Config(s()), 10, "config error: x"),
    ];
    for (e, code, text) in all {
        assert_eq!(e.to_exit_code(), code);
        assert_eq!(e.to_text(), text);
    }
}

#[test]
fn modes() {
    let out = Some("b.mapache".to_string());
    let export = CmdArgs { export_snapshot: Some(UseSnapshot::Latest), output: out.clone(), ..args() };
    assert_eq!(choose_mode(&export, &global("/r")).unwrap(), Mode::Export);
    let import = CmdArgs { import: true, input: paths(2), ..args() };
    assert_eq!(choose_mode(&import, &global("/r")).unwrap(), Mode::Import);
    let create = CmdArgs { bundle: true, input: paths(1), output: out, ..args() };
    assert_eq!(choose_mode(&create, &global("")).unwrap(), Mode::Create);
    let extract = CmdArgs { extract: true, input: paths(1), ..args() };
    assert_eq!(choose_mode(&extract, &global("")).unwrap(), Mode::Extract);
    let mount = CmdArgs { mount: true, input: paths(2), ..args() };
    assert_eq!(choose_mode(&mount, &global("")).unwrap(), Mode::Mount);
    // What is asked for first decides.
    let both = CmdArgs { extract: true, import: true, input: paths(1), ..args() };
    assert_eq!(choose_mode(&both, &global("/r")).unwrap(), Mode::Import);
}

#[test]
fn modes_with_something_missing() {
    let text = |a: &CmdArgs, repo: &str| choose_mode(a, &global(repo)).unwrap_err().to_text();
    let export = CmdArgs { export_snapshot: Some(UseSnapshot::Latest), ..args() };
    assert_eq!(text(&export, "/r"), "config error: -o is required for export mode");
    let export = CmdArgs { output: Some("b".to_string()), ..export };
    assert_eq!(
        text(&export, ""),
        "config error: Repository path is required for export mode. Use -r, set MAPACHE_REPOSITORY, or add it to config file."
    );
    let import = CmdArgs { import: true, ..args() };
    assert_eq!(
        text(&import, "/r"),
        "bundle failed: import mode requires at least one bundle file as input"
    );
    let import = CmdArgs { input: paths(1), ..import };
    assert_eq!(
        text(&import, ""),
        "config error: Repository path is required for import mode. Use -r, set MAPACHE_REPOSITORY, or add it to config file."
    );
    let create = CmdArgs { bundle: true, ..args() };
    assert_eq!(text(&create, ""), "config error: bundle mode requires at least one input path");
    let create = CmdArgs { input: paths(1), ..create };
    assert_eq!(text(&create, ""), "config error: -o is required for bundle mode");
    let extract = CmdArgs { extract: true, ..args() };
    assert_eq!(text(&extract, ""), "config error: extract mode requires a bundle file as input");
    let extract = CmdArgs { input: paths(2), ..extract };
    assert_eq!(
        text(&extract, ""),
        "bundle failed: extract mode requires exactly one bundle file as input"
    );
    assert_eq!(
        text(&args(), ""),
        "config error: mount mode requires a bundle file and mountpoint"
    );
    let mount = CmdArgs { input: paths(3), ..args() };
    assert_eq!(
        text(&mount, ""),
        "bundle failed: mount mode requires: bundle.mapache <mountpoint>"
    );
}

#[test]
fn places() {
    assert_eq!(destination(&args()), ".");
    assert_eq!(destination(&CmdArgs { output: Some("/o".to_string()), ..args() }), "/o");
    let create = CmdArgs { create: true, ..args() };
    assert!(mountpoint_of(&create, Place::Nothing).unwrap());
    assert!(!mountpoint_of(&create, Place::Directory).unwrap());
    assert_eq!(
        mountpoint_of(&args(), Place::Nothing).unwrap_err().to_text(),
        "bundle failed: mountpoint doesn't exist. use -c to create it automatically."
    );
    assert_eq!(
        mountpoint_of(&args(), Place::Other).unwrap_err().to_text(),
        "bundle failed: mountpoint must be a directory"
    );
    assert_eq!(mount_options(&args()).data_cache_size, 256 * 1024 * 1024);
}

#[test]
fn paths_of_a_bundle() {
    let given = |g: &str, a: Option<&str>| GivenPath { given: g.to_string(), absolute: a.map(String::from) };
    let all = vec![given("a", Some("/w/a")), given("*.o", Some("/w/*.o")), given("x?", Some("/w/x?")), given("b", None)];
    assert_eq!(source_paths(&all), ["/w/a", "/w/*.o", "/w/x?", "b"]);
    assert_eq!(exclude_paths(&all), ["/w/a", "*.o", "x?", "b"]);
    let common = || "/c".to_string();
    assert_eq!(bundle_root(&paths(2), Some("/up".to_string()), common()), "/c");
    assert_eq!(bundle_root(&paths(0), None, common()), "/c");
    assert_eq!(bundle_root(&paths(1), Some("/up".to_string()), common()), "/up");
    assert_eq!(bundle_root(&paths(1), None, common()), "/p0");
}

#[test]
fn nodes() {
    assert!(announces_start(NodeKind::File));
    assert!(announces_start(NodeKind::Other));
    assert!(!announces_start(NodeKind::Directory));
    assert_eq!(scanned_bytes(NodeKind::File, 9), 9);
    assert_eq!(scanned_bytes(NodeKind::Directory, 9), 0);
    assert_eq!(scanned_bytes(NodeKind::Other, 9), 0);
    assert_eq!(node_error(NodeStep::Scan, "/p", "x"), "scan error: x");
    assert_eq!(node_error(NodeStep::Read, "/p", "x"), "node error: x");
    assert_eq!(node_error(NodeStep::Task, "/p", "x"), "chunking task panicked for /p: x");
    assert_eq!(node_error(NodeStep::Store, "/p", "x"), "error chunking /p: x");
    assert_eq!(node_error(NodeStep::Background, "/p", "x"), "background scanner panicked: x");
    assert_eq!(root_tree(Some(id(3))).unwrap(), id(3));
    assert_eq!(root_tree(None).unwrap_err().to_text(), "bundle failed: root tree ID not set");
}

fn entry(n: u128, blob_type: BlobType, raw_length: u32) -> BundleIndexEntry {
    BundleIndexEntry { id: id(n), blob_type, raw_length }
}

#[test]
fn only_what_is_missing_is_imported() {
    let entries = vec![
        entry(1, BlobType::Tree, 10),
        entry(2, BlobType::Data, 200),
        entry(3, BlobType::Data, 3000),
    ];
    assert!(lengths_fit(&entries));
    let plan = import_plan(&entries, &vec![false, true, false]);
    assert_eq!(plan.to_import, [entries[0], entries[2]]);
    assert_eq!(plan.skipped, 1);
    assert_eq!(plan.import_bytes, 3010);
    assert_eq!(
        import_notice("[2/3]", &plan, "2 blobs", "3 KiB"),
        "[2/3] 2 blobs blobs (3 KiB), 1 skipped already present..."
    );
    assert!(summarizes_import(&plan, false) && !summarizes_import(&plan, true));
    let plan = import_plan(&entries, &vec![true, true, true]);
    assert!(plan.to_import.is_empty());
    assert_eq!(
        import_notice("[2/3]", &plan, "0 blobs", "0 B"),
        "[2/3] All blobs already present — creating snapshot..."
    );
    assert!(!summarizes_import(&plan, false));
    assert_eq!((plan.skipped, plan.import_bytes), (3, 0));
}

#[test]
fn summary_of_an_import() {
    let entries = vec![
        entry(1, BlobType::Tree, 10),
        entry(2, BlobType::Data, 200),
        entry(3, BlobType::Data, u32::MAX),
        entry(4, BlobType::Tree, 5),
    ];
    let s = import_summary(&entries);
    assert_eq!((s.data_blobs, s.meta_blobs, s.processed_items_count), (2, 2, 2));
    let raw = 215 + u32::MAX as u64;
    assert_eq!((s.raw_bytes, s.encoded_bytes, s.processed_bytes), (raw, raw, raw));
    assert_eq!((s.total_raw_bytes, s.total_encoded_bytes), (raw, raw));
    assert_eq!((s.meta_raw_bytes, s.meta_encoded_bytes), (15, 15));
    assert_eq!(s.diff_counts, DiffCounts::default());
    assert_eq!(import_summary(&vec![]).raw_bytes, 0);
    assert_eq!(import_description("b.mapache"), "Imported from bundle b.mapache");
    assert_eq!(import_closing(1), "Bundle imported successfully.");
    assert_eq!(import_closing(12), "All 12 bundles imported successfully.");
}

#[test]
fn what_bundle_says() {
    let steps = [
        (BundleStep::Plain, "bundle failed: x"),
        (BundleStep::Backend, "bundle failed: failed to initialize repository backend: x"),
        (BundleStep::ProcessTask, "bundle failed: process task panicked: x"),
        (BundleStep::EncodeTask, "bundle failed: encoding task panicked: x"),
        (BundleStep::SaveBlob, "bundle failed: failed to save blob: x"),
        (BundleStep::Serialize, "bundle failed: failed to serialize snapshot: x"),
        (BundleStep::SaveSnapshot, "bundle failed: failed to save snapshot: x"),
    ];
    for (step, text) in steps {
        assert_eq!(step_error(step, "x").to_text(), text);
    }
    assert_eq!(open_error("/b", "x").to_text(), "bundle failed: failed to open bundle /b: x");
    assert_eq!(load_error("ab", "x").to_text(), "bundle failed: failed to load blob ab: x");
    assert_eq!(export_error(ExportStep::Plain, "x").inner(), "x");
    assert_eq!(export_error(ExportStep::Task, "x").inner(), "export task panicked: x");
    assert_eq!(export_error(ExportStep::Stat, "x").inner(), "failed to stat bundle file: x");
    assert_eq!(tree_error("ab", "x").inner(), "failed to load tree ab: x");
    assert_eq!(snapshot_to_export(Some(1), &UseSnapshot::Latest).unwrap(), 1);
    let wanted = UseSnapshot::SnapshotId("ab".to_string());
    assert_eq!(
        snapshot_to_export::<u8>(None, &wanted).unwrap_err().inner(),
        "no snapshot found matching 'ab'"
    );
    let time = moment_text(1431648000, 7200).unwrap();
    assert_eq!(
        export_title("[1/3]", "ab12", &time),
        "[1/3] Exporting snapshot ab12 (2015-05-15 02:00:00 +02:00)..."
    );
}

#[test]
fn tables_of_a_bundle() {
    let summary = SnapshotProcessSummary {
        processed_items_count: 3,
        processed_bytes: 100,
        diff_counts: DiffCounts::default(),
    };
    assert_eq!(
        shown(&creation_rows(&summary, 40)),
        ["Processed items: 3", "Original size: 100B", "Bundle size: 40B", "Compression ratio: 40/100"]
    );
    assert_eq!(shown(&extraction_rows(2, 9)), ["Extracted items: 2", "Total size: 9B"]);
    assert_eq!(
        shown(&export_rows("ab".to_string(), 5, 100, 30, "2s".to_string())),
        [
            "Snapshot: ab",
            "Exported blobs: 5",
            "Original size: 100B",
            "Bundle size: 30B",
            "Compression ratio: 30/100",
            "Duration: 2s"
        ]
    );
    assert_eq!(
        shown(&import_rows("ab".to_string(), 5, 1, 30, "2s".to_string())),
        [
            "New snapshot: ab",
            "Blobs imported: 5",
            "Blobs skipped (existing): 1",
            "Imported size: 30B",
            "Duration: 2s"
        ]
    );
}

fn file(blobs: &[u128], index: &HashMap<u128, u32>) -> TreeNode {
    let refs = blobs.iter().map(|&b| BlobRef { id: id(b), raw_length: index.get(&b).copied() }).collect();
    TreeNode { tree: None, blobs: Some(refs) }
}

fn dir(n: u128) -> TreeNode {
    TreeNode { tree: Some(id(n)), blobs: None }
}

#[test]
fn a_walk_finds_everything_once() {
    let index: HashMap<u128, u32> = [(1, 10), (2, 20), (3, 30), (11, 100), (12, 200)].into();
    // Two ways lead to the directory 3, one of its files shares a piece, and one piece is in no index.
    let repo: HashMap<u128, Vec<TreeNode>> = [
        (1, vec![dir(2), dir(3), file(&[11, 12], &index)]),
        (2, vec![dir(3), file(&[12, 13], &index)]),
        (3, vec![file(&[11], &index), TreeNode { tree: None, blobs: None }]),
    ]
    .into();
    let mut walk = ExportWalk::new(id(1));
    let mut loaded = vec![];
    while let Some(tree) = walk.next_tree() {
        loaded.push(tree.lo);
        walk.tree_loaded(index.get(&tree.lo).copied(), &repo[&tree.lo]);
    }
    assert_eq!(loaded, [1, 3, 2]);
    let found = walk.found();
    let unique: HashSet<(u128, bool)> = found.iter().map(|(i, t)| (i.lo, *t == BlobType::Tree)).collect();
    assert_eq!(unique.len(), found.len());
    let expected: HashSet<(u128, bool)> =
        [(1, true), (2, true), (3, true), (11, false), (12, false), (13, false)].into();
    assert_eq!(unique, expected);
    assert_eq!(walk.total_bytes(), Some(10 + 20 + 30 + 100 + 200));
    assert!(walk.next_tree().is_none());
}

#[test]
fn a_walk_of_one_directory() {
    let mut walk = ExportWalk::new(id(5));
    assert_eq!(walk.next_tree(), Some(id(5)));
    walk.tree_loaded(None, &vec![dir(5)]);
    assert_eq!(walk.next_tree(), None);
    assert_eq!(walk.found(), &vec![(id(5), BlobType::Tree)]);
    assert_eq!(walk.total_bytes(), Some(0));
}

#[test]
fn a_snapshot_follows_a_whole_import() {
    let entries = vec![entry(1, BlobType::Tree, 10), entry(2, BlobType::Data, 200)];
    let made = |results: Vec<Result<(), BundleError>>, absolute: Option<&str>| {
        imported_snapshot(
            all_done(results),
            id(1),
            "b.mapache".to_string(),
            absolute.map(String::from),
            "b.mapache",
            &entries,
        )
    };
    // Nothing was missing, and there is a snapshot all the same.
    let s = made(vec![], Some("/w/b.mapache")).unwrap();
    assert_eq!(s.tree, id(1));
    assert_eq!(s.root, "/");
    assert_eq!(s.paths, ["/w/b.mapache"]);
    assert_eq!(s.description, "Imported from bundle b.mapache");
    assert_eq!(s.summary, import_summary(&entries));
    assert_eq!(made(vec![Ok(()), Ok(())], None).unwrap().paths, ["b.mapache"]);
    let failed = made(vec![Ok(()), Err(load_error("ab", "x")), Err(load_error("cd", "y"))], None);
    assert_eq!(failed.unwrap_err().to_text(), "bundle failed: failed to load blob ab: x");
}
