//! Sizes, rates, durations and moments.

use mapache::doubles::Double;
use mapache::sizes::{cache_size_mib_parser, pack_size_parser, tolerance_parser, Single};
use mapache::units::{
    deserialize_bandwidth_opt, deserialize_duration_opt, moment_text, parse_bandwidth, parse_duration_string,
    serialize_bandwidth_opt, serialize_duration_opt, Duration,
};
use mapache::verify_sample;

fn single(v: f32) -> Single {
    Single { bits: v.to_bits() }
}

fn read(s: &str) -> Result<Single, String> {
    s.parse::<f32>().map(single).map_err(|e| e.to_string())
}

fn cache_size(s: &str) -> Result<f32, String> {
    cache_size_mib_parser(read(s)).map(|v| f32::from_bits(v.bits))
}

fn pack_size(s: &str) -> Result<f32, String> {
    pack_size_parser(read(s)).map(|v| f32::from_bits(v.bits))
}

fn sample_pack_count(pack_count: usize, sample_pct: f64) -> usize {
    verify_sample::sample_pack_count(pack_count, Double { bits: sample_pct.to_bits() })
}

#[test]
fn cmd_bundle_cache_size_mib_rejects_scientific_overflow() {
    let err = cache_size("1e20").expect_err("1e20 must be rejected");
    assert!(err.contains("too large"), "unexpected error message: {err}");
}

#[test]
fn cmd_bundle_cache_size_mib_rejects_non_finite() {
    assert!(cache_size("inf").unwrap_err().contains("finite"), "inf must be rejected");
    assert!(cache_size("nan").unwrap_err().contains("finite"), "nan must be rejected");
}

#[test]
fn cmd_bundle_cache_size_mib_rejects_negative() {
    assert!(cache_size("-1").unwrap_err().contains("negative"), "negative must be rejected");
}

#[test]
fn cmd_bundle_cache_size_mib_accepts_default_range() {
    assert_eq!(cache_size("256").unwrap(), 256.0);
    assert_eq!(cache_size("1").unwrap(), 1.0);
    assert_eq!(cache_size("0").unwrap(), 0.0);
}

#[test]
fn cmd_mount_cache_size_mib_rejects_scientific_overflow() {
    let err = cache_size("1e20").expect_err("1e20 must be rejected");
    assert!(err.contains("too large"), "unexpected error message: {err}");
}

#[test]
fn cmd_mount_cache_size_mib_rejects_non_finite() {
    assert!(cache_size("inf").unwrap_err().contains("finite"), "inf must be rejected");
    assert!(cache_size("nan").unwrap_err().contains("finite"), "nan must be rejected");
}

#[test]
fn cmd_mount_cache_size_mib_rejects_negative() {
    assert!(cache_size("-1").unwrap_err().contains("negative"), "negative must be rejected");
}

#[test]
fn cmd_mount_cache_size_mib_accepts_default_range() {
    assert_eq!(cache_size("64").unwrap(), 64.0);
    assert_eq!(cache_size("1").unwrap(), 1.0);
    assert_eq!(cache_size("0").unwrap(), 0.0);
}

#[test]
fn cache_size_at_its_edges() {
    // 2^44 MiB are 2^64 bytes: one more than can be counted.
    assert_eq!(cache_size("17592186044416"), Err("cache size is too large".to_string()));
    assert_eq!(cache_size("17592184995840"), Ok(17592184995840.0));
    assert_eq!(single(17592184995840.0).to_bytes(), 18446742974197923840);
    assert_eq!(cache_size("-0").unwrap().to_bits(), (-0.0f32).to_bits());
    assert!(cache_size("much").unwrap_err().starts_with("Invalid cache size: "));
}

#[test]
fn test_pack_size_parser() {
    assert!(pack_size("0").is_err());
    assert!(matches!(pack_size("1"), Ok(1.0)));
    assert!(matches!(pack_size("2"), Ok(2.0)));
    assert!(matches!(pack_size("16"), Ok(16.0)));
    assert!(matches!(pack_size("32"), Ok(32.0)));
    assert!(matches!(pack_size("4095"), Ok(4095.0)));
    assert!(pack_size("4096").is_err());
    assert!(pack_size("8000").is_err());
}

#[test]
fn pack_size_at_its_edges() {
    let between = "Pack size must be between 1 and 4095 MiB".to_string();
    assert_eq!(pack_size("0.999"), Err(between.clone()));
    assert_eq!(pack_size("4095.001"), Err(between.clone()));
    assert_eq!(pack_size("nan"), Err(between.clone()));
    assert_eq!(pack_size("inf"), Err(between.clone()));
    assert_eq!(pack_size("-1"), Err(between));
    assert_eq!(pack_size("1.5"), Ok(1.5));
    assert!(pack_size("big").unwrap_err().starts_with("Invalid pack size: "));
}

#[test]
fn sizes_in_bytes() {
    for v in [0.0f32, 1.0, 1.5, 16.0, 0.3, 4095.0, 256.0, 1e-10, 1e-45, 3.0e13, 1e20, -1.0, -0.0] {
        assert_eq!(single(v).to_bytes(), (v * 1048576.0) as u64, "{v}");
    }
    assert_eq!(single(f32::NAN).to_bytes(), 0);
    assert_eq!(single(f32::INFINITY).to_bytes(), u64::MAX);
    assert_eq!(single(f32::NEG_INFINITY).to_bytes(), 0);
    assert_eq!(single(f32::MAX).to_bytes(), u64::MAX);
}

#[test]
fn test_parse_bandwidth() {
    assert_eq!(parse_bandwidth("1000").unwrap(), 1000);
    assert_eq!(parse_bandwidth("1K").unwrap(), 1024);
    assert_eq!(parse_bandwidth("1KB").unwrap(), 1000);
    assert_eq!(parse_bandwidth("1M").unwrap(), 1024 * 1024);
    assert_eq!(parse_bandwidth("1MB").unwrap(), 1000 * 1000);
    assert_eq!(parse_bandwidth("1G").unwrap(), 1024 * 1024 * 1024);
    assert_eq!(parse_bandwidth("1GB").unwrap(), 1000 * 1000 * 1000);
    assert_eq!(parse_bandwidth("1.5M").unwrap(), (1.5 * 1024.0 * 1024.0) as u64);
    assert_eq!(parse_bandwidth("10MiB/s").unwrap(), 10 * 1024 * 1024);
}

#[test]
fn bandwidth_at_its_edges() {
    assert_eq!(parse_bandwidth(" 500 KB/s "), Ok(500_000));
    assert_eq!(parse_bandwidth("2 gib/s"), Ok(2 * 1024 * 1024 * 1024));
    assert_eq!(parse_bandwidth("7 B/s"), Ok(7));
    assert_eq!(parse_bandwidth("0.5"), Ok(0));
    assert_eq!(parse_bandwidth(""), Err("invalid bandwidth: ".to_string()));
    assert_eq!(parse_bandwidth("fast"), Err("invalid bandwidth: fast".to_string()));
    assert_eq!(parse_bandwidth("1TB"), Err("invalid bandwidth: 1TB".to_string()));
    assert_eq!(parse_bandwidth("-1"), Err("invalid bandwidth: -1".to_string()));
    assert_eq!(parse_bandwidth("18446744073709551615"), Ok(u64::MAX));
    assert!(parse_bandwidth("18446744073709551616").is_err());
    assert_eq!(parse_bandwidth("0.00000000000000000000000000001G"), Ok(0));
    assert_eq!(parse_bandwidth("1.9999999999999999999999999999999999999999"), Ok(1));
    assert_eq!(parse_bandwidth("0000000000000000000000000000000000000000000001.5K"), Ok(1536));
    assert_eq!(parse_bandwidth("17179869183.99999999999999999999999G"), Ok(u64::MAX));
    assert!(parse_bandwidth("17179869184G").is_err());
    assert!(parse_bandwidth("999999999999999999999999999999999999999999").is_err());
    assert_eq!(parse_bandwidth(".5K"), Ok(512));
    assert!(parse_bandwidth("18446744073709551615K").is_err());
    assert_eq!(deserialize_bandwidth_opt(None), Ok(None));
    assert_eq!(deserialize_bandwidth_opt(Some("1K".to_string())), Ok(Some(1024)));
    assert!(deserialize_bandwidth_opt(Some("?".to_string())).is_err());
}

#[test]
fn bandwidth_reads_back() {
    assert_eq!(serialize_bandwidth_opt(None), None);
    assert_eq!(serialize_bandwidth_opt(Some(1023)).as_deref(), Some("1023 B/s"));
    assert_eq!(serialize_bandwidth_opt(Some(1024)).as_deref(), Some("1 KiB/s"));
    assert_eq!(serialize_bandwidth_opt(Some(10 * 1024 * 1024)).as_deref(), Some("10 MiB/s"));
    assert_eq!(serialize_bandwidth_opt(Some(3 << 30)).as_deref(), Some("3 GiB/s"));
    assert_eq!(serialize_bandwidth_opt(Some(1500)).as_deref(), Some("1 KiB/s"));
    for b in [0u64, 1, 1023, 1024, 5 << 20, 7 << 30, 1500, u64::MAX] {
        let text = serialize_bandwidth_opt(Some(b)).unwrap();
        let again = parse_bandwidth(&text).unwrap();
        let unit: u64 = if b >= 1 << 30 {
            1 << 30
        } else if b >= 1 << 20 {
            1 << 20
        } else if b >= 1 << 10 {
            1 << 10
        } else {
            1
        };
        assert_eq!(again, b / unit * unit, "{b}");
    }
}

#[test]
fn durations() {
    assert_eq!(parse_duration_string("30s"), Ok(Duration { millis: 30_000 }));
    assert_eq!(parse_duration_string("5m30s"), Ok(Duration { millis: 330_000 }));
    assert_eq!(parse_duration_string("2w"), Ok(Duration { millis: 14 * 86_400_000 }));
    assert_eq!(parse_duration_string("4y"), Ok(Duration { millis: 4 * 365 * 86_400_000 }));
    assert_eq!(parse_duration_string("5h"), Ok(Duration { millis: 5 * 3_600_000 }));
    assert_eq!(parse_duration_string("1d"), Ok(Duration { millis: chrono::Duration::days(1).num_milliseconds() }));
    assert_eq!(parse_duration_string(""), Err("invalid duration: ".to_string()));
    assert_eq!(parse_duration_string("5"), Err("invalid duration: 5".to_string()));
    assert_eq!(parse_duration_string("5x"), Err("invalid duration: 5x".to_string()));
    assert_eq!(parse_duration_string("m5"), Err("invalid duration: m5".to_string()));
    // One more second than a length of time may have.
    assert_eq!(parse_duration_string("9223372036854775s"), Ok(Duration { millis: 9223372036854775000 }));
    assert!(parse_duration_string("9223372036854776s").is_err());
    assert!(parse_duration_string("99999999999999999999999s").is_err());
    assert_eq!(deserialize_duration_opt(None), Ok(None));
    assert_eq!(deserialize_duration_opt(Some("1m".to_string())), Ok(Some(Duration { millis: 60_000 })));
    assert!(deserialize_duration_opt(Some("soon".to_string())).is_err());
    assert_eq!(Duration::minutes(5), Duration { millis: 300_000 });
    assert!(Duration { millis: 0 }.is_zero());
    assert!(!Duration { millis: 1 }.is_zero());
}

#[test]
fn durations_read_back() {
    assert_eq!(serialize_duration_opt(None), None);
    assert_eq!(serialize_duration_opt(Some(Duration { millis: 0 })).as_deref(), Some("0s"));
    assert_eq!(serialize_duration_opt(Some(Duration { millis: 300_000 })).as_deref(), Some("5m"));
    assert_eq!(serialize_duration_opt(Some(Duration { millis: 93_784_999 })).as_deref(), Some("1d2h3m4s"));
    assert_eq!(serialize_duration_opt(Some(Duration { millis: -5_000 })).as_deref(), Some("5s"));
    for seconds in [1i64, 59, 60, 3599, 86_400, 90_061, 31_536_000] {
        let d = Duration { millis: seconds * 1000 };
        let text = serialize_duration_opt(Some(d)).unwrap();
        assert_eq!(parse_duration_string(&text), Ok(d), "{text}");
    }
}

#[test]
fn moments() {
    assert_eq!(moment_text(1431648000, 0).as_deref(), Some("2015-05-15 00:00:00 +00:00"));
    assert_eq!(moment_text(0, 3600).as_deref(), Some("1970-01-01 01:00:00 +01:00"));
    assert_eq!(moment_text(-1, -19800).as_deref(), Some("1969-12-31 18:29:59 -05:30"));
    assert_eq!(moment_text(0, 86_400), None);
    assert_eq!(moment_text(0, -86_400), None);
    assert!(moment_text(0, 86_399).is_some());
    assert!(moment_text(8210266876799, 86_399).is_some());
    assert_eq!(moment_text(8210266876800, 0), None);
    assert!(moment_text(-8334601228800, -86_399).is_some());
    assert_eq!(moment_text(-8334601228801, 0), None);
    assert_eq!(moment_text(i64::MAX, 0), None);
    assert_eq!(moment_text(i64::MIN, 0), None);
}

#[test]
fn sample_zero_percent_verifies_no_packs() {
    assert_eq!(sample_pack_count(2, 0.0), 0);
    assert_eq!(sample_pack_count(10, 0.0), 0);
    assert_eq!(sample_pack_count(1, 0.0), 0);
}

#[test]
fn sample_empty_pack_list_is_zero() {
    assert_eq!(sample_pack_count(0, 10.0), 0);
    assert_eq!(sample_pack_count(0, 0.0), 0);
    assert_eq!(sample_pack_count(0, 100.0), 0);
}

#[test]
fn sample_positive_percent_keeps_at_least_one_when_packs_exist() {
    assert_eq!(sample_pack_count(10, 50.0), 5);
    assert_eq!(sample_pack_count(10, 100.0), 10);
    assert_eq!(sample_pack_count(10, 0.01), 1);
}

#[test]
fn sample_never_exceeds_the_packs() {
    assert_eq!(sample_pack_count(10, 250.0), 10);
    assert_eq!(sample_pack_count(10, -5.0), 0);
}

fn share(pack_count: usize, sample_pct: f64) -> usize {
    if pack_count == 0 || sample_pct <= 0.0 {
        return 0;
    }
    (((pack_count as f64) * (sample_pct / 100.0)).round() as usize).clamp(1, pack_count)
}

#[test]
fn sample_is_the_share_that_the_machine_computes() {
    let counts = [0usize, 1, 2, 3, 7, 10, 97, 199, 200, 1000, 65537, (1 << 52) - 1, 1 << 52, (1 << 53) - 1, 1 << 53,
        (1 << 53) + 1, (1 << 53) + 3, (1 << 60) + 129, usize::MAX - 1024, usize::MAX - 1023, usize::MAX];
    let percentages = [0.0, -0.0, -1.0, f64::NAN, -f64::NAN, f64::INFINITY, f64::NEG_INFINITY, f64::MAX, f64::MIN,
        f64::MIN_POSITIVE, 5e-324, -5e-324, 1e-300, 1e-290, 1e-286, 1e-20, 0.01, 0.5, 1.0, 2.5, 12.5, 33.3, 50.0,
        99.9999999999, 100.0, 100.00000000000001, 180.0, 1e10, 1e300];
    for n in counts {
        for p in percentages {
            assert_eq!(sample_pack_count(n, p), share(n, p), "{n} {p}");
        }
    }
    let mut state: u64 = 0x9e37_79b9_7f4a_7c15;
    for i in 0..200_000u64 {
        state ^= state << 13;
        state ^= state >> 7;
        state ^= state << 17;
        let n = (state >> (i % 64)) as usize;
        state ^= state << 13;
        state ^= state >> 7;
        state ^= state << 17;
        let any = f64::from_bits(state);
        let near = f64::from_bits((0x3f0 + state % 0x28) << 52 | state >> 12);
        assert_eq!(sample_pack_count(n, any), share(n, any), "{n} {any}");
        assert_eq!(sample_pack_count(n, near), share(n, near), "{n} {near}");
        let half = (i % 401) as f64 / 4.0;
        assert_eq!(sample_pack_count(n % 1000, half), share(n % 1000, half), "{n} {half}");
    }
}

#[test]
fn sample_rounds_halfway_up() {
    assert_eq!(sample_pack_count(3, 50.0), 2);
    assert_eq!(sample_pack_count(5, 50.0), 3);
    assert_eq!(sample_pack_count(200, 0.75), 2);
    assert_eq!(sample_pack_count(10, f64::NAN), 1);
    assert_eq!(sample_pack_count(10, f64::INFINITY), 10);
}

#[test]
fn sample_grows() {
    let percentages = [f64::NEG_INFINITY, -1.0, 0.0, 0.01, 1.0, 33.3, 50.0, 99.0, 100.0, 180.0, f64::INFINITY];
    let counts = [0usize, 1, 2, 3, 10, 997];
    for (i, p) in percentages.iter().enumerate() {
        for q in &percentages[i..] {
            for (j, m) in counts.iter().enumerate() {
                for n in &counts[j..] {
                    assert!(sample_pack_count(*m, *p) <= sample_pack_count(*n, *q), "{m} {n} {p} {q}");
                }
            }
        }
    }
}

#[test]
fn tolerances() {
    let tolerance = |s: &str| tolerance_parser(read(s)).map(|v| f32::from_bits(v.bits));
    let outside = "tolerance must be between 0 and 100".to_string();
    assert_eq!(tolerance("0"), Ok(0.0));
    assert_eq!(tolerance("-0"), Ok(0.0));
    assert_eq!(tolerance("100"), Ok(100.0));
    assert_eq!(tolerance("12.5"), Ok(12.5));
    assert_eq!(tolerance("1e-40"), Ok(1e-40));
    assert_eq!(tolerance("100.00001"), Err(outside.clone()));
    assert_eq!(tolerance("128"), Err(outside.clone()));
    assert_eq!(tolerance("-0.1"), Err(outside.clone()));
    assert_eq!(tolerance("nan"), Err(outside.clone()));
    assert_eq!(tolerance("inf"), Err(outside));
    assert!(tolerance("some").unwrap_err().starts_with("Invalid tolerance: "));
    for bits in [100.0f32.to_bits() - 1, 100.0f32.to_bits(), 100.0f32.to_bits() + 1, 64.0f32.to_bits(), 0x7f7f_ffff] {
        let v = f32::from_bits(bits);
        assert_eq!(single(v).is_percentage(), (0.0..=100.0).contains(&v), "{v}");
    }
}
