//! Values on the command line, read by the parsers that it is given.

use clap::{Arg, Command};
use mapache::cmd_forget;
use mapache::cmd_restore::{deserialize_batch_size_opt, parse_batch_size};
use mapache::cmd_snapshot::{deserialize_readers_opt, parse_readers};
use mapache::units::Duration;

fn forget() -> Command {
    Command::new("forget")
        .arg(Arg::new("keep-last").long("keep-last").value_parser(cmd_forget::parse_retention_number))
        .arg(Arg::new("keep-yearly").long("keep-yearly").value_parser(cmd_forget::parse_period_number))
        .arg(Arg::new("keep-within").long("keep-within").value_parser(cmd_forget::parse_keep_within))
}

fn restore() -> Command {
    Command::new("restore")
        .no_binary_name(true)
        .arg(Arg::new("batch-size").long("batch-size").value_parser(parse_batch_size))
}

fn snapshot() -> Command {
    Command::new("snapshot")
        .no_binary_name(true)
        .arg(Arg::new("readers").long("readers").value_parser(parse_readers))
}

#[test]
fn keep_last_rejects_zero() {
    let err = forget()
        .try_get_matches_from(["forget", "--keep-last", "0"])
        .expect_err("--keep-last 0 must be rejected");
    assert!(err.to_string().contains("greater than 0"), "unexpected error message: {err}");
}

#[test]
fn keep_last_rejects_negative() {
    assert!(
        forget().try_get_matches_from(["forget", "--keep-last", "-3"]).is_err(),
        "--keep-last -3 must be rejected"
    );
}

#[test]
fn keep_last_accepts_all() {
    let args = forget()
        .try_get_matches_from(["forget", "--keep-last", "all"])
        .expect("--keep-last all must parse");
    assert_eq!(args.get_one::<usize>("keep-last").copied(), Some(usize::MAX));
}

#[test]
fn keep_last_accepts_positive() {
    let args = forget()
        .try_get_matches_from(["forget", "--keep-last", "5"])
        .expect("--keep-last 5 must parse");
    assert_eq!(args.get_one::<usize>("keep-last").copied(), Some(5));
}

#[test]
fn keep_within_rejects_zero() {
    let err = forget()
        .try_get_matches_from(["forget", "--keep-within", "0s"])
        .expect_err("--keep-within 0s must be rejected");
    assert!(err.to_string().contains("greater than 0"), "unexpected error message: {err}");
}

#[test]
fn keep_within_accepts_positive() {
    let args = forget()
        .try_get_matches_from(["forget", "--keep-within", "1d"])
        .expect("--keep-within 1d must parse");
    let one_day = Duration { millis: chrono::Duration::days(1).num_milliseconds() };
    assert_eq!(args.get_one::<Duration>("keep-within").copied(), Some(one_day));
}

#[test]
fn keep_within_toml_rejects_zero() {
    let toml = r#"
            keep-within = "0s"
        "#;
    let table = toml::from_str::<toml::Table>(toml).unwrap();
    let within = table.get("keep-within").and_then(|v| v.as_str()).map(|s| s.to_string());
    assert_eq!(within.as_deref(), Some("0s"));
    let err = cmd_forget::deserialize_duration_opt(within).expect_err("TOML keep-within 0s must be rejected");
    assert!(err.to_string().contains("greater than 0"), "unexpected error message: {err}");
}

#[test]
fn batch_size_rejects_zero() {
    let err = restore()
        .try_get_matches_from(["--batch-size", "0"])
        .expect_err("--batch-size 0 must be rejected");
    assert!(err.to_string().contains("greater than 0"), "unexpected error message: {err}");
}

#[test]
fn batch_size_accepts_positive() {
    let parsed = restore()
        .try_get_matches_from(["--batch-size", "100"])
        .expect("--batch-size 100 must parse");
    assert_eq!(parsed.get_one::<usize>("batch-size").copied(), Some(100));
}

#[test]
fn readers_rejects_zero() {
    let err = snapshot()
        .try_get_matches_from(["--readers", "0"])
        .expect_err("--readers 0 must be rejected");
    assert!(err.to_string().contains("greater than 0"), "unexpected error message: {err}");
}

#[test]
fn readers_accepts_positive() {
    let parsed = snapshot()
        .try_get_matches_from(["--readers", "8"])
        .expect("--readers 8 must parse");
    assert_eq!(parsed.get_one::<usize>("readers").copied(), Some(8));
}

#[test]
fn numbers_that_are_none_are_told_of() {
    assert_eq!(cmd_forget::parse_retention_number("x"), Err("x is not a number".to_string()));
    assert_eq!(cmd_forget::parse_retention_number(""), Err(" is not a number".to_string()));
    assert_eq!(cmd_forget::parse_retention_number("ALL"), Err("ALL is not a number".to_string()));
    assert_eq!(cmd_forget::parse_retention_number("-3"), Err("n must be greater than 0".to_string()));
    assert_eq!(cmd_forget::parse_retention_number("+7"), Ok(7));
    assert_eq!(
        cmd_forget::parse_retention_number("9223372036854775807"),
        Ok(9223372036854775807)
    );
    assert!(cmd_forget::parse_retention_number("9223372036854775808").is_err());
    assert_eq!(parse_batch_size("ten"), Err("'ten' is not a valid number".to_string()));
    assert_eq!(parse_batch_size("-1"), Err("'-1' is not a valid number".to_string()));
    assert_eq!(parse_batch_size("18446744073709551615"), Ok(usize::MAX));
    assert_eq!(
        parse_batch_size("18446744073709551616"),
        Err("'18446744073709551616' is not a valid number".to_string())
    );
    assert_eq!(parse_readers("8.0"), Err("'8.0' is not a valid number".to_string()));
    assert_eq!(parse_readers("0"), Err("readers must be greater than 0".to_string()));
    assert_eq!(parse_batch_size("000"), Err("batch-size must be greater than 0".to_string()));
}

#[test]
fn periods_are_more_than_one() {
    let err = forget()
        .try_get_matches_from(["forget", "--keep-yearly", "1"])
        .expect_err("--keep-yearly 1 must be rejected");
    assert!(err.to_string().contains("greater than 1"), "unexpected error message: {err}");
    let args = forget().try_get_matches_from(["forget", "--keep-yearly", "2"]).unwrap();
    assert_eq!(args.get_one::<usize>("keep-yearly").copied(), Some(2));
    assert_eq!(cmd_forget::parse_period_number("all"), Ok(usize::MAX));
    assert_eq!(cmd_forget::parse_period_number("0"), Err("n must be greater than 1".to_string()));
    assert_eq!(cmd_forget::parse_period_number("-3"), Err("n must be greater than 1".to_string()));
    assert_eq!(cmd_forget::parse_period_number("x"), Err("x is not a number".to_string()));
    assert_eq!(cmd_forget::parse_retention_number("1"), Ok(1));
    let number = |n| Some(cmd_forget::RetentionValue::Number(n));
    let text = |s: &str| Some(cmd_forget::RetentionValue::Text(s.to_string()));
    assert_eq!(cmd_forget::deserialize_period_opt(None), Ok(None));
    assert_eq!(cmd_forget::deserialize_period_opt(number(2)), Ok(Some(2)));
    assert_eq!(
        cmd_forget::deserialize_period_opt(number(1)),
        Err("retention number must be greater than 1".to_string())
    );
    assert_eq!(cmd_forget::deserialize_period_opt(text("all")), Ok(Some(usize::MAX)));
    assert!(cmd_forget::deserialize_period_opt(text("1")).is_err());
}

#[test]
fn the_configuration_is_held_to_the_same_bounds() {
    assert_eq!(deserialize_readers_opt(None), Ok(None));
    assert_eq!(deserialize_readers_opt(Some(8)), Ok(Some(8)));
    assert_eq!(deserialize_readers_opt(Some(0)), Err("readers must be greater than 0".to_string()));
    assert_eq!(deserialize_batch_size_opt(None), Ok(None));
    assert_eq!(deserialize_batch_size_opt(Some(1)), Ok(Some(1)));
    assert_eq!(
        deserialize_batch_size_opt(Some(0)),
        Err("batch-size must be greater than 0".to_string())
    );
}
