use fireblocks_config::loader::SourceFile;
use fireblocks_config::profile::{profile_file_name, profile_file_names};
use fireblocks_config::secret::Loaded;
use fireblocks_config::tree::{duplicate_entries, position, put, Entry, Node};
use fireblocks_config::{DisplayConfig, Error, FireblocksConfig, Signer};
use std::time::Duration;

fn config(extra: &str) -> FireblocksConfig {
    let doc = format!("api_key = \"k\"\nurl = \"u\"\n[signer]\nvault = \"0\"\n[extra]\n{}", extra);
    let base = SourceFile { path: "base.toml".to_string(), text: Some(doc) };
    FireblocksConfig::new(&base, &vec![], &vec![]).unwrap()
}

#[test]
fn extra_values_are_read_by_kind() {
    let cfg = config(
        "rpc_url = \"https://rpc.com\"\nfast = true\nsmall = -4\nbig = 9223372036854775807\n",
    );
    assert_eq!(cfg.get_extra("rpc_url"), Ok(&Node::Str("https://rpc.com".to_string())));
    assert_eq!(cfg.get_extra_string("rpc_url"), Ok("https://rpc.com".to_string()));
    assert_eq!(cfg.get_extra_bool("fast"), Ok(true));
    assert_eq!(cfg.get_extra_i64("small"), Ok(-4));
    assert_eq!(cfg.get_extra_i64("big"), Ok(9223372036854775807));
    assert_eq!(cfg.get_extra_u64("big"), Ok(9223372036854775807));
    assert_eq!(cfg.get_extra_duration("big"), Ok(Duration::from_secs(9223372036854775807)));
    assert!(!cfg.has_extra("missing"));
    assert_eq!(cfg.get_extra("missing"), Err(Error::NotPresent { key: "missing".to_string() }));
    assert_eq!(
        cfg.get_extra_u64("missing"),
        Err(Error::NotPresent { key: "missing".to_string() })
    );
}

#[test]
fn extra_value_of_another_kind_is_a_parse_error() {
    let cfg = config("rpc_url = \"https://rpc.com\"\nfast = true\nsmall = -4\n");
    assert!(matches!(cfg.get_extra_string("fast"), Err(Error::ConfigParseError(_))));
    assert!(matches!(cfg.get_extra_bool("rpc_url"), Err(Error::ConfigParseError(_))));
    assert!(matches!(cfg.get_extra_i64("rpc_url"), Err(Error::ConfigParseError(_))));
    assert!(matches!(cfg.get_extra_u64("small"), Err(Error::ConfigParseError(_))));
    assert!(matches!(cfg.get_extra_duration("small"), Err(Error::ConfigParseError(_))));
    assert_eq!(
        cfg.get_extra_string("fast"),
        Err(Error::ConfigParseError(
            "Failed to deserialize key 'fast': expected a string".to_string()
        ))
    );
    match cfg.get_extra_duration("fast") {
        Err(Error::ConfigParseError(message)) => assert!(message.contains("'fast'")),
        other => panic!("expected a parse error, got {:?}", other),
    }
}

#[test]
fn numbers_are_typed_by_their_range() {
    assert_eq!(Node::Int(-1).as_count(), None);
    assert_eq!(Node::Int(18446744073709551615).as_count(), Some(u64::MAX));
    assert_eq!(Node::Int(18446744073709551616).as_count(), None);
    assert_eq!(Node::Unsigned(18446744073709551615).as_count(), Some(u64::MAX));
    assert_eq!(Node::Unsigned(18446744073709551616).as_count(), None);
    assert_eq!(Node::Int(-9223372036854775808).as_signed(), Some(i64::MIN));
    assert_eq!(Node::Int(-9223372036854775809).as_signed(), None);
    assert_eq!(Node::Unsigned(9223372036854775807).as_signed(), Some(i64::MAX));
    assert_eq!(Node::Unsigned(9223372036854775808).as_signed(), None);
    assert_eq!(Node::Bool(true).as_flag(), Some(true));
    assert_eq!(Node::Int(1).as_flag(), None);
    assert_eq!(Node::Str("a".to_string()).as_text(), Some(&"a".to_string()));
    assert_eq!(Node::Nil.as_text(), None);
}

#[test]
fn entries_are_found_stored_and_copied() {
    let entries = vec![
        Entry { key: "a".to_string(), value: Node::Int(1) },
        Entry { key: "b".to_string(), value: Node::Array(vec![Node::Nil, Node::Bool(true)]) },
    ];
    assert_eq!(position(&entries, "a"), 0);
    assert_eq!(position(&entries, "b"), 1);
    assert_eq!(position(&entries, "c"), 2);
    let copy = duplicate_entries(&entries);
    assert_eq!(copy, entries);
    let replaced = put(copy, "a".to_string(), Node::Int(2));
    assert_eq!(replaced[0], Entry { key: "a".to_string(), value: Node::Int(2) });
    assert_eq!(replaced.len(), 2);
    let grown = put(replaced, "c".to_string(), Node::Nil);
    assert_eq!(grown.len(), 3);
    assert_eq!(grown[2].clone(), Entry { key: "c".to_string(), value: Node::Nil });
    assert_eq!(entries[1].value.clone(), entries[1].value.duplicate());
}

#[test]
fn profile_files_are_named_after_the_profile() {
    assert_eq!(profile_file_name("production"), "production.toml");
    assert_eq!(profile_file_name(""), ".toml");
    assert_eq!(
        profile_file_names(&vec!["staging".to_string(), "production".to_string()]),
        vec!["default.toml", "staging.toml", "production.toml"]
    );
    assert_eq!(profile_file_names(&vec![]), vec!["default.toml"]);
}

#[test]
fn configurations_are_copied_and_start_empty() {
    let cfg = config("timeout = 40\n");
    let copy = cfg.clone();
    assert_eq!(copy, cfg);
    assert_eq!(copy.signer.poll_timeout, Duration::from_secs(180));
    let empty = FireblocksConfig::default();
    assert_eq!(empty.api_key, "");
    assert_eq!(empty.secret, None);
    assert_eq!(empty.signer, Signer::default());
    assert_eq!(empty.signer.poll_timeout, Duration::from_secs(0));
    assert_eq!(empty.display_config, DisplayConfig::default());
    assert!(empty.extra.is_empty());
    assert_eq!(empty.get_key(Loaded::Bytes(vec![])), Err(Error::MissingSecret));
}

#[test]
fn profiles_are_layered_in_the_order_named() {
    let default = SourceFile {
        path: "default.toml".to_string(),
        text: Some("api_key = \"d\"\nurl = \"u\"\n[signer]\nvault = \"0\"\n".to_string()),
    };
    let a = SourceFile { path: "a.toml".to_string(), text: Some("api_key = \"a\"\n".to_string()) };
    let b = SourceFile { path: "b.toml".to_string(), text: Some("api_key = \"b\"\n".to_string()) };
    let names = vec!["a".to_string(), "b".to_string()];
    let env = vec![];
    let cfg =
        FireblocksConfig::init_with_profiles(&names, &default, &vec![a.clone(), b.clone()], &env)
            .unwrap();
    assert_eq!(cfg.api_key, "b");
    let cfg = FireblocksConfig::init_with_profiles(
        &vec!["a".to_string()],
        &default,
        &vec![a.clone(), b.clone()],
        &env,
    )
    .unwrap();
    assert_eq!(cfg.api_key, "a");
    let cfg = FireblocksConfig::init(&default, &env).unwrap();
    assert_eq!(cfg.api_key, "d");
    let gone = SourceFile { path: "b.toml".to_string(), text: None };
    assert_eq!(
        FireblocksConfig::init_with_profiles(&names, &default, &vec![a.clone(), gone], &env),
        Err(Error::ProfileConfigNotFound("b.toml".to_string()))
    );
    let none = SourceFile { path: "default.toml".to_string(), text: None };
    assert_eq!(
        FireblocksConfig::init_with_profiles(&names, &none, &vec![a, b], &env),
        Err(Error::ConfigNotFound { path: "default.toml".to_string() })
    );
}
