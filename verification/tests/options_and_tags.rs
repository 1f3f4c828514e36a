//! Compression levels, snapshots, tags and strategies.

use mapache::cmd_restore::{deserialize_strategy_opt, Strategy};
use mapache::options::{
    deserialize_compression_opt, deserialize_use_snapshot_opt, parse_compression_level, Compression, UseSnapshot,
};
use mapache::tags::{parse_tags, EMPTY_TAG_MARK};
use mapache::text::Alphabet;
use mapache::text_set::TextSet;

#[test]
fn compression_levels() {
    assert_eq!(Compression::Fastest.to_level(), 1);
    assert_eq!(Compression::Fast.to_level(), 3);
    assert_eq!(Compression::Balanced.to_level(), 5);
    assert_eq!(Compression::Better.to_level(), 10);
    assert_eq!(Compression::Best.to_level(), 19);
    assert_eq!(Compression::Manual(-7).to_level(), -7);
}

#[test]
fn compression_reads_back() {
    let all = [
        Compression::Fastest,
        Compression::Fast,
        Compression::Balanced,
        Compression::Better,
        Compression::Best,
        Compression::Manual(0),
        Compression::Manual(22),
        Compression::Manual(i32::MIN),
        Compression::Manual(i32::MAX),
    ];
    for c in all {
        assert_eq!(Compression::from_str(&c.to_text()), Ok(c));
    }
    assert_eq!(Compression::Manual(-3).to_text(), "level:-3");
}

#[test]
fn compression_that_is_none() {
    assert_eq!(parse_compression_level("BEST"), Ok(Compression::Best));
    assert_eq!(parse_compression_level("level:7"), Ok(Compression::Manual(7)));
    assert_eq!(parse_compression_level("level:+7"), Ok(Compression::Manual(7)));
    assert_eq!(
        parse_compression_level("level:x"),
        Err("Invalid compression level: x".to_string())
    );
    assert_eq!(
        parse_compression_level("level:2147483648"),
        Err("Invalid compression level: 2147483648".to_string())
    );
    assert_eq!(
        parse_compression_level("Level:7"),
        Err("Invalid compression format: Level:7".to_string())
    );
    assert_eq!(parse_compression_level(""), Err("Invalid compression format: ".to_string()));
    assert_eq!(deserialize_compression_opt(None), Ok(None));
    assert_eq!(
        deserialize_compression_opt(Some("fast".to_string())),
        Ok(Some(Compression::Fast))
    );
    assert!(deserialize_compression_opt(Some("slow".to_string())).is_err());
}

#[test]
fn snapshots_by_name() {
    assert_eq!(UseSnapshot::default(), UseSnapshot::Latest);
    assert_eq!(UseSnapshot::from_str("Latest"), Ok(UseSnapshot::Latest));
    assert_eq!(
        UseSnapshot::from_str("ab12"),
        Ok(UseSnapshot::SnapshotId("ab12".to_string()))
    );
    assert_eq!(
        UseSnapshot::from_str(""),
        Err("invalid snapshot: use 'latest' or a snapshot ID".to_string())
    );
    for u in [UseSnapshot::Latest, UseSnapshot::SnapshotId("AB12".to_string())] {
        assert_eq!(UseSnapshot::from_str(&u.to_text()), Ok(u));
    }
    assert_eq!(deserialize_use_snapshot_opt(None), Ok(None));
    assert_eq!(
        deserialize_use_snapshot_opt(Some("latest".to_string())),
        Ok(Some(UseSnapshot::Latest))
    );
    assert!(deserialize_use_snapshot_opt(Some(String::new())).is_err());
}

#[test]
fn tags_of_a_list() {
    assert_eq!(EMPTY_TAG_MARK, "[]");
    assert_eq!(parse_tags(None).items, Vec::<String>::new());
    assert_eq!(parse_tags(Some("")).items, Vec::<String>::new());
    assert_eq!(parse_tags(Some(" , ,")).items, Vec::<String>::new());
    assert_eq!(parse_tags(Some("work, important ,work,a b")).items, ["a b", "important", "work"]);
    assert_eq!(parse_tags(Some("\u{3000}x\t,\u{a0}y")).items, ["x", "y"]);
    assert_eq!(parse_tags(Some("b,B,a,Z,\u{e9}")).items, ["B", "Z", "a", "b", "\u{e9}"]);
    assert_eq!(parse_tags(Some("x,[]")).items, ["[]", "x"]);
    assert_eq!(parse_tags(Some("x,[]")).without(EMPTY_TAG_MARK).items, ["x"]);
    let two = parse_tags(Some("one,two"));
    assert_eq!(two.len(), 2);
    assert!(two.contains("one"));
    assert!(!two.contains("three"));
}

#[test]
fn sets_of_paths_go_by_component() {
    let mut paths = TextSet::new(Alphabet::Path);
    for p in ["/a-b", "/a/c", "/a", "/a/b", "/a/b"] {
        paths.insert(p.to_string());
    }
    assert_eq!(paths.items, ["/a", "/a/b", "/a/c", "/a-b"]);
    let mut sorted = ["/a-b", "/a/c", "/a", "/a/b"].map(std::path::PathBuf::from);
    sorted.sort();
    for (text, path) in paths.items.iter().zip(sorted.iter()) {
        assert_eq!(std::path::Path::new(text), path.as_path());
    }
    assert!(!paths.insert("/a".to_string()));
    assert!(paths.insert("/".to_string()));
    assert_eq!(paths.items[0], "/");
}

#[test]
fn strategies() {
    for s in [Strategy::Overwrite, Strategy::Skip, Strategy::Newer, Strategy::Fail] {
        assert_eq!(Strategy::from_str(&s.to_text()), Ok(s));
    }
    assert_eq!(Strategy::Newer.to_text(), "newer");
    assert_eq!(deserialize_strategy_opt(None), Ok(None));
    assert_eq!(
        deserialize_strategy_opt(Some("skip".to_string())),
        Ok(Some(Strategy::Skip))
    );
    assert_eq!(
        deserialize_strategy_opt(Some("ask".to_string())),
        Err("Invalid strategy: ask".to_string())
    );
}
