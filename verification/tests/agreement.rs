use config::{Config, File, FileFormat, Value, ValueKind};
use fireblocks_config::document::parse_document;
use fireblocks_config::tree::{Entry, Node};

fn node_of(value: Value) -> Node {
    match value.kind {
        ValueKind::Nil => Node::Nil,
        ValueKind::Boolean(b) => Node::Bool(b),
        ValueKind::I64(i) => Node::Int(i.into()),
        ValueKind::I128(i) => Node::Int(i),
        ValueKind::U64(u) => Node::Unsigned(u.into()),
        ValueKind::U128(u) => Node::Unsigned(u),
        ValueKind::Float(x) => Node::Float(x.to_bits()),
        ValueKind::String(s) => Node::Str(s),
        ValueKind::Array(items) => Node::Array(items.into_iter().map(node_of).collect()),
        ValueKind::Table(table) => Node::Table(
            table.into_iter().map(|(key, value)| Entry { key, value: node_of(value) }).collect(),
        ),
    }
}

fn built(layers: &[&str]) -> Node {
    let mut builder = Config::builder();
    for layer in layers {
        builder = builder.add_source(File::from_str(layer, FileFormat::Toml));
    }
    node_of(builder.build().unwrap().cache)
}

fn layered(layers: &[&str]) -> Node {
    let mut tree = parse_document(layers[0]).unwrap();
    for layer in &layers[1..] {
        tree = tree.overlay(&parse_document(layer).unwrap());
    }
    tree
}

const BASE: &str = r#"
api_key = "blah"
url = "https://sandbox-api.fireblocks.io/v1"
secret_path = "examples/test.pem"
tags = ["a", "b"]
level = 1

[display]
output = "table"

[signer]
poll_timeout = "120"
vault = "0"

[signer.limits]
daily = 10
weekly = 50

[extra]
rpc_url = "https://rpc.com"
"#;

const OVER: &str = r#"
api_key = "production"
tags = ["c"]
debug = true

[signer]
poll_interval = 9

[signer.limits]
weekly = 70
monthly = 200

[level]
deep = true

[extra]
timeout = 40
rpc_url = "https://other"
"#;

const LAST: &str = r#"
signer = "flat"
empty = {}

[extra]
"#;

#[test]
fn layering_agrees_with_the_builder_of_the_reader() {
    assert_eq!(layered(&[BASE]), built(&[BASE]));
    assert_eq!(layered(&[BASE, OVER]), built(&[BASE, OVER]));
    assert_eq!(layered(&[OVER, BASE]), built(&[OVER, BASE]));
    assert_eq!(layered(&[BASE, OVER, LAST]), built(&[BASE, OVER, LAST]));
    assert_eq!(layered(&[LAST, OVER, BASE]), built(&[LAST, OVER, BASE]));
    assert_eq!(layered(&[BASE, BASE]), built(&[BASE]));
    assert_eq!(layered(&["", OVER]), built(&[OVER]));
}
