use fireblocks_config::document::parse_document;
use fireblocks_config::env::{env_layer, key_of_variable, shape};
use fireblocks_config::loader::SourceFile;
use fireblocks_config::tree::{Entry, Node};
use fireblocks_config::{Error, FireblocksConfig, OutputFormat};
use std::time::Duration;

const BASE: &str = r#"
api_key = "blah"
url = "https://sandbox-api.fireblocks.io/v1"
secret_path = "examples/test.pem"

[signer]
vault = "0"
"#;

fn file(path: &str, text: &str) -> SourceFile {
    SourceFile { path: path.to_string(), text: Some(text.to_string()) }
}

fn entry(key: &str, value: Node) -> Entry {
    Entry { key: key.to_string(), value }
}

fn text(s: &str) -> Node {
    Node::Str(s.to_string())
}

fn vars(pairs: &[(&str, &str)]) -> Vec<(String, String)> {
    pairs.iter().map(|(k, v)| (k.to_string(), v.to_string())).collect()
}

#[test]
fn document_is_read_in_order_with_every_kind() {
    let doc = parse_document(
        "name = \"x\"\ncount = 7\nratio = 1.5\non = true\nlist = [1, \"two\"]\n\
         \n[inner]\nb = 2\na = 1\n",
    )
    .unwrap();
    let expected = Node::Table(vec![
        entry("name", text("x")),
        entry("count", Node::Int(7)),
        entry("ratio", Node::Float(1.5f64.to_bits())),
        entry("on", Node::Bool(true)),
        entry("list", Node::Array(vec![Node::Int(1), text("two")])),
        entry("inner", Node::Table(vec![entry("b", Node::Int(2)), entry("a", Node::Int(1))])),
    ]);
    assert_eq!(doc, expected);
}

#[test]
fn document_that_is_malformed_is_a_parse_error() {
    let r = parse_document("api_key = ");
    assert!(matches!(r, Err(Error::ConfigParseError(_))));
}

#[test]
fn overlay_merges_tables_and_replaces_everything_else() {
    let base = Node::Table(vec![
        entry("only_base", Node::Int(1)),
        entry("both", text("base")),
        entry("table", Node::Table(vec![entry("x", Node::Int(1)), entry("y", Node::Int(2))])),
        entry("list", Node::Array(vec![Node::Int(1), Node::Int(2)])),
        entry("scalar_then_table", Node::Int(5)),
    ]);
    let over = Node::Table(vec![
        entry("both", text("over")),
        entry("table", Node::Table(vec![entry("y", Node::Int(3)), entry("z", Node::Int(4))])),
        entry("list", Node::Array(vec![Node::Int(9)])),
        entry("scalar_then_table", Node::Table(vec![entry("k", Node::Bool(true))])),
        entry("only_over", Node::Bool(false)),
    ]);
    let merged = base.overlay(&over);
    let expected = Node::Table(vec![
        entry("only_base", Node::Int(1)),
        entry("both", text("over")),
        entry(
            "table",
            Node::Table(vec![
                entry("x", Node::Int(1)),
                entry("y", Node::Int(3)),
                entry("z", Node::Int(4)),
            ]),
        ),
        entry("list", Node::Array(vec![Node::Int(9)])),
        entry("scalar_then_table", Node::Table(vec![entry("k", Node::Bool(true))])),
        entry("only_over", Node::Bool(false)),
    ]);
    assert_eq!(merged, expected);
    assert_eq!(merged.get("only_base"), Some(&Node::Int(1)));
    assert_eq!(merged.get("absent"), None);
    assert!(merged.has("only_over"));
    assert!(!text("x").has("only_over"));
    assert_eq!(text("a").overlay(&Node::Int(1)), Node::Int(1));
    assert_eq!(base.overlay(&Node::Nil), Node::Nil);
}

#[test]
fn override_keeps_what_it_does_not_name() {
    let over = file(
        "over.toml",
        "url = \"https://api.fireblocks.io/v1\"\n[signer]\npoll_timeout = 7\n",
    );
    let cfg = FireblocksConfig::new(&file("base.toml", BASE), &vec![over], &vec![]).unwrap();
    assert_eq!(cfg.api_key, "blah");
    assert_eq!(cfg.url, "https://api.fireblocks.io/v1");
    assert_eq!(cfg.signer.vault, "0");
    assert_eq!(cfg.signer.poll_timeout, Duration::from_secs(7));
    assert_eq!(cfg.signer.poll_interval, Duration::from_secs(5));
}

#[test]
fn later_override_wins_over_earlier() {
    let first = file("a.toml", "api_key = \"first\"\ndebug = true\n");
    let second = file("b.toml", "api_key = \"second\"\n");
    let cfg =
        FireblocksConfig::new(&file("base.toml", BASE), &vec![first, second], &vec![]).unwrap();
    assert_eq!(cfg.api_key, "second");
    assert!(cfg.debug);
}

#[test]
fn base_that_cannot_be_read_is_not_found() {
    let base = SourceFile { path: "missing.toml".to_string(), text: None };
    let r = FireblocksConfig::new(&base, &vec![], &vec![]);
    assert_eq!(r, Err(Error::ConfigNotFound { path: "missing.toml".to_string() }));
}

#[test]
fn override_that_cannot_be_read_is_an_error() {
    let over = SourceFile { path: "gone.toml".to_string(), text: None };
    let r = FireblocksConfig::new(&file("base.toml", BASE), &vec![over], &vec![]);
    match r {
        Err(Error::ConfigParseError(message)) => assert!(message.contains("gone.toml")),
        other => panic!("expected a parse error, got {:?}", other),
    }
}

#[test]
fn environment_secret_wins_over_every_document() {
    let with_secret = file("s.toml", "secret = \"from file\"\n");
    for value in ["override", "007", "TRUE", "1e3", ""] {
        let env = vars(&[("PATH", "/bin"), ("FIREBLOCKS_SECRET", value)]);
        let cfg =
            FireblocksConfig::new(&file("base.toml", BASE), &vec![with_secret.clone()], &env)
                .unwrap();
        assert_eq!(cfg.secret.as_deref(), Some(value));
    }
}

#[test]
fn environment_names_map_to_nested_keys() {
    let env = vars(&[
        ("fireblocks_api_key", "from env"),
        ("FIREBLOCKS_SECRET_PATH", "~/key.pem"),
        ("FIREBLOCKS_SIGNER_VAULT", "12"),
        ("FIREBLOCKS_SIGNER_POLL_TIMEOUT", "30"),
        ("Fireblocks_Display_Output", "JSON"),
        ("FIREBLOCKS_DEBUG", "True"),
        ("FIREBLOCKS_EXTRA_RETRIES", "-3"),
        ("FIREBLOCKS_EXTRA_LABEL", "blue"),
        ("FIREBLOCKS_", "ignored"),
        ("FIREBLOCKS", "ignored"),
        ("OTHER_SECRET", "ignored"),
    ]);
    let cfg = FireblocksConfig::new(&file("base.toml", BASE), &vec![], &env).unwrap();
    assert_eq!(cfg.api_key, "from env");
    assert_eq!(cfg.secret_path.as_deref(), Some("~/key.pem"));
    assert_eq!(cfg.secret, None);
    assert_eq!(cfg.signer.vault, "12");
    assert_eq!(cfg.signer.poll_timeout, Duration::from_secs(30));
    assert_eq!(cfg.display_config.output, OutputFormat::Json);
    assert!(cfg.debug);
    assert!(!cfg.mainnet);
    assert_eq!(cfg.get_extra_i64("retries").unwrap(), -3);
    assert_eq!(cfg.get_extra_string("label").unwrap(), "blue");
}

#[test]
fn environment_layer_is_a_table_of_what_the_variables_set() {
    let layer = env_layer(&vars(&[
        ("FIREBLOCKS_URL", "first"),
        ("HOME", "/root"),
        ("FIREBLOCKS_SIGNER_VAULT", "7"),
        ("FIREBLOCKS_MAINNET", "false"),
        ("FIREBLOCKS_SIGNER_POLL_INTERVAL", "9"),
        ("fireblocks_url", "second"),
    ]));
    let expected = Node::Table(vec![
        entry("url", text("second")),
        entry(
            "signer",
            Node::Table(vec![entry("vault", text("7")), entry("poll_interval", Node::Int(9))]),
        ),
        entry("mainnet", Node::Bool(false)),
    ]);
    assert_eq!(layer, expected);
}

#[test]
fn variable_names_give_keys_in_lower_case() {
    assert_eq!(key_of_variable("FIREBLOCKS_SECRET"), Some("secret".to_string()));
    assert_eq!(key_of_variable("FireBlocks_Api_Key"), Some("api_key".to_string()));
    assert_eq!(key_of_variable("FIREBLOCKS_"), None);
    assert_eq!(key_of_variable("FIREBLOCKSX_SECRET"), None);
    assert_eq!(key_of_variable("SECRET"), None);
}

#[test]
fn values_are_read_by_their_shape() {
    assert_eq!(shape("true"), Node::Bool(true));
    assert_eq!(shape("FALSE"), Node::Bool(false));
    assert_eq!(shape("42"), Node::Int(42));
    assert_eq!(shape("+42"), Node::Int(42));
    assert_eq!(shape("-9223372036854775808"), Node::Int(-9223372036854775808));
    assert_eq!(shape("9223372036854775807"), Node::Int(9223372036854775807));
    assert_eq!(shape("9223372036854775808"), text("9223372036854775808"));
    assert_eq!(shape("-9223372036854775809"), text("-9223372036854775809"));
    assert_eq!(shape("1.5"), text("1.5"));
    assert_eq!(shape("-"), text("-"));
    assert_eq!(shape(""), text(""));
}

#[test]
fn undeclared_keys_are_kept_as_extras() {
    let doc = r#"
api_key = "k"
url = "u"
region = "eu"
timeout = 1

[signer]
vault = "0"
sign_only = true

[display]
output = "tsv"
color = "never"

[extra]
timeout = 40
"#;
    let cfg = FireblocksConfig::new(&file("base.toml", doc), &vec![], &vec![]).unwrap();
    assert_eq!(cfg.display_config.output, OutputFormat::Tsv);
    assert_eq!(cfg.get_extra_i64("timeout").unwrap(), 40);
    assert_eq!(cfg.get_extra_string("region").unwrap(), "eu");
    assert!(cfg.get_extra_bool("sign_only").unwrap());
    assert_eq!(cfg.get_extra_string("color").unwrap(), "never");
    assert!(!cfg.has_extra("api_key"));
    assert!(!cfg.has_extra("vault"));
    assert!(!cfg.has_extra("output"));
    assert_eq!(
        cfg.extra,
        vec![
            entry("timeout", Node::Int(40)),
            entry("region", text("eu")),
            entry("sign_only", Node::Bool(true)),
            entry("color", text("never")),
        ]
    );
}

#[test]
fn declared_fields_are_decoded_strictly() {
    let cases = [
        "url = \"u\"\n[signer]\nvault = \"0\"\n",
        "api_key = 5\nurl = \"u\"\n[signer]\nvault = \"0\"\n",
        "api_key = \"k\"\n[signer]\nvault = \"0\"\n",
        "api_key = \"k\"\nurl = \"u\"\n",
        "api_key = \"k\"\nurl = \"u\"\nsigner = 1\n",
        "api_key = \"k\"\nurl = \"u\"\n[signer]\n",
        "api_key = \"k\"\nurl = \"u\"\n[signer]\nvault = 0\n",
        "api_key = \"k\"\nurl = \"u\"\nsecret = 1\n[signer]\nvault = \"0\"\n",
        "api_key = \"k\"\nurl = \"u\"\nsecret_path = true\n[signer]\nvault = \"0\"\n",
        "api_key = \"k\"\nurl = \"u\"\ndebug = \"yes\"\n[signer]\nvault = \"0\"\n",
        "api_key = \"k\"\nurl = \"u\"\nmainnet = 1\n[signer]\nvault = \"0\"\n",
        "api_key = \"k\"\nurl = \"u\"\ndisplay = 1\n[signer]\nvault = \"0\"\n",
        "api_key = \"k\"\nurl = \"u\"\nextra = 1\n[signer]\nvault = \"0\"\n",
        "api_key = \"k\"\nurl = \"u\"\n[display]\noutput = \"xml\"\n[signer]\nvault = \"0\"\n",
        "api_key = \"k\"\nurl = \"u\"\n[display]\noutput = 1\n[signer]\nvault = \"0\"\n",
    ];
    for doc in cases {
        let r = FireblocksConfig::new(&file("base.toml", doc), &vec![], &vec![]);
        assert!(matches!(r, Err(Error::ConfigParseError(_))), "accepted: {}", doc);
    }
}

#[test]
fn parse_failures_name_the_field() {
    let load = |doc: &str| FireblocksConfig::new(&file("base.toml", doc), &vec![], &vec![]);
    assert_eq!(
        load("url = \"u\"\n[signer]\nvault = \"0\"\n"),
        Err(Error::ConfigParseError("missing field `api_key`".to_string()))
    );
    assert_eq!(
        load("api_key = \"k\"\nurl = \"u\"\n"),
        Err(Error::ConfigParseError("missing field `signer`".to_string()))
    );
    assert_eq!(
        load("api_key = \"k\"\nurl = 5\n[signer]\nvault = \"0\"\n"),
        Err(Error::ConfigParseError("invalid type for `url`, expected a string".to_string()))
    );
    assert_eq!(
        load("api_key = \"k\"\nurl = \"u\"\ndebug = 1\n[signer]\nvault = \"0\"\n"),
        Err(Error::ConfigParseError("invalid type for `debug`, expected a boolean".to_string()))
    );
}

#[test]
fn decoding_a_tree_that_is_no_table_fails() {
    let r = FireblocksConfig::from_tree(&Node::Int(1));
    assert!(matches!(r, Err(Error::ConfigParseError(_))));
}

#[test]
fn output_format_is_named_in_any_case() {
    assert_eq!(OutputFormat::named("table"), Some(OutputFormat::Table));
    assert_eq!(OutputFormat::named("Tsv"), Some(OutputFormat::Tsv));
    assert_eq!(OutputFormat::named("JSON"), Some(OutputFormat::Json));
    assert_eq!(OutputFormat::named("yaml"), None);
    assert_eq!(OutputFormat::default(), OutputFormat::Table);
}
