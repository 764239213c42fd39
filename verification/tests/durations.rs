use fireblocks_config::duration::{decode_duration, describe, parse_duration};
use fireblocks_config::loader::SourceFile;
use fireblocks_config::text::{lowercase, parse_decimal, parse_integer, render_signed};
use fireblocks_config::text::{render_unsigned, same_text};
use fireblocks_config::tree::Node;
use fireblocks_config::{default_poll_interval, default_poll_timeout, Error, FireblocksConfig};
use std::time::Duration;

fn signer_with(lines: &str) -> Result<FireblocksConfig, Error> {
    let doc = format!("api_key = \"k\"\nurl = \"u\"\n[signer]\nvault = \"0\"\n{}", lines);
    let base = SourceFile { path: "base.toml".to_string(), text: Some(doc) };
    FireblocksConfig::new(&base, &vec![], &vec![])
}

#[test]
fn duration_from_text_and_from_number() {
    assert_eq!(decode_duration(&Node::Str("120".to_string())), Ok(Duration::from_secs(120)));
    assert_eq!(decode_duration(&Node::Int(40)), Ok(Duration::from_secs(40)));
    assert_eq!(decode_duration(&Node::Unsigned(40)), Ok(Duration::from_secs(40)));
    assert_eq!(
        decode_duration(&Node::Str("abc".to_string())),
        Err(Error::InvalidDuration("abc".to_string()))
    );
    assert_eq!(parse_duration("0"), Ok(Duration::from_secs(0)));
    assert_eq!(parse_duration("+15"), Ok(Duration::from_secs(15)));
    assert_eq!(parse_duration("007"), Ok(Duration::from_secs(7)));
    assert_eq!(
        parse_duration("18446744073709551615"),
        Ok(Duration::from_secs(18446744073709551615))
    );
}

#[test]
fn duration_that_is_malformed_names_its_value() {
    for bad in ["", "+", "-1", "1.5", "12s", " 12", "18446744073709551616", "１２"] {
        assert_eq!(parse_duration(bad), Err(Error::InvalidDuration(bad.to_string())));
    }
    assert_eq!(decode_duration(&Node::Int(-5)), Err(Error::InvalidDuration("-5".to_string())));
    assert_eq!(
        decode_duration(&Node::Int(18446744073709551616)),
        Err(Error::InvalidDuration("18446744073709551616".to_string()))
    );
    assert_eq!(
        decode_duration(&Node::Unsigned(u128::MAX)),
        Err(Error::InvalidDuration("340282366920938463463374607431768211455".to_string()))
    );
    assert_eq!(
        decode_duration(&Node::Bool(true)),
        Err(Error::InvalidDuration("true".to_string()))
    );
    assert_eq!(decode_duration(&Node::Nil), Err(Error::InvalidDuration("nil".to_string())));
    assert_eq!(
        decode_duration(&Node::Float(1.5f64.to_bits())),
        Err(Error::InvalidDuration("float".to_string()))
    );
    assert_eq!(
        decode_duration(&Node::Array(vec![])),
        Err(Error::InvalidDuration("array".to_string()))
    );
    assert_eq!(
        decode_duration(&Node::Table(vec![])),
        Err(Error::InvalidDuration("table".to_string()))
    );
    assert_eq!(describe(&Node::Bool(false)), "false");
}

#[test]
fn durations_default_only_when_absent() {
    let cfg = signer_with("").unwrap();
    assert_eq!(cfg.signer.poll_timeout, Duration::from_secs(180));
    assert_eq!(cfg.signer.poll_interval, Duration::from_secs(5));
    assert_eq!(default_poll_timeout(), Duration::from_secs(180));
    assert_eq!(default_poll_interval(), Duration::from_secs(5));

    let cfg = signer_with("poll_timeout = 40\npoll_interval = \"120\"\n").unwrap();
    assert_eq!(cfg.signer.poll_timeout, Duration::from_secs(40));
    assert_eq!(cfg.signer.poll_interval, Duration::from_secs(120));

    assert_eq!(
        signer_with("poll_timeout = \"abc\"\n"),
        Err(Error::InvalidDuration("abc".to_string()))
    );
    assert_eq!(
        signer_with("poll_interval = -1\n"),
        Err(Error::InvalidDuration("-1".to_string()))
    );
    assert_eq!(
        signer_with("poll_interval = true\n"),
        Err(Error::InvalidDuration("true".to_string()))
    );
}

#[test]
fn numbers_are_read_and_written_in_decimal() {
    assert_eq!(parse_decimal("120"), Some(120));
    assert_eq!(parse_decimal("x"), None);
    assert_eq!(parse_integer("-12"), Some(-12));
    assert_eq!(parse_integer("+-12"), None);
    assert_eq!(render_signed(0), "0");
    assert_eq!(render_signed(-120), "-120");
    assert_eq!(render_signed(i128::MIN), "-170141183460469231731687303715884105728");
    assert_eq!(render_signed(i128::MAX), "170141183460469231731687303715884105727");
    assert_eq!(render_unsigned(1009), "1009");
}

#[test]
fn text_is_compared_and_lowered_by_character() {
    assert!(same_text("héllo", "héllo"));
    assert!(!same_text("hello", "hellO"));
    assert!(!same_text("hello", "hello "));
    assert_eq!(lowercase("FireBlocks_ÄZaz09"), "fireblocks_Äzaz09");
}
