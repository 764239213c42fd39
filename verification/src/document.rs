//! Reading a TOML document into a value tree.
//!
//! The grammar is the `config` crate's TOML reader; what it makes of a text
//! is named here and not restated.

use crate::error::Error;
use crate::tree::{Entry, Node, Tree};
use config::{Source, ValueKind};
use vstd::prelude::*;

verus! {

/// `config::ConfigError`, carried as it comes.
#[verifier::external_type_specification]
#[verifier::external_body]
pub struct ExConfigError(config::ConfigError);

/// `config::Value`, carried as it comes; [`read_content`] names what one
/// holds.
#[verifier::external_type_specification]
#[verifier::external_body]
pub struct ExConfigValue(config::Value);

/// The root table that the TOML reader makes of `text`, with the entries
/// of every table in document order (the reader is built to keep that
/// order); nothing where `text` is not a TOML document.
pub uninterp spec fn toml_document(text: Seq<char>) -> Option<Tree>;

/// What a value of the reader holds: its kind and content, with a float
/// as its bit pattern and the entries of a table in the order of its map.
pub uninterp spec fn read_content(value: config::Value) -> Tree;

/// `config::File::from_str` with the TOML format, collected as a source.
/// The result is the reader's root table for `text`, or its error where
/// `text` is not a TOML document.
#[verifier::external_body]
fn read_toml(text: &str) -> (r: Result<config::Value, config::ConfigError>)
    ensures
        r matches Ok(root) ==> toml_document(text@) == Some(read_content(root)) && read_content(
            root,
        ) is Table,
        r is Err ==> toml_document(text@) is None,
{
    config::File::from_str(text, config::FileFormat::Toml).collect().map(config::Value::from)
}

/// Moves what a `config::Value` holds into a `Node`, kind by kind; a
/// float is kept as its bit pattern. The reader's tables are maps, so no
/// table of the result holds a key twice.
#[verifier::external_body]
fn lift(value: config::Value) -> (r: Node)
    ensures
        r@ == read_content(value),
        r@.wf(),
{
    match value.kind {
        ValueKind::Nil => Node::Nil,
        ValueKind::Boolean(b) => Node::Bool(b),
        ValueKind::I64(i) => Node::Int(i.into()),
        ValueKind::I128(i) => Node::Int(i),
        ValueKind::U64(u) => Node::Unsigned(u.into()),
        ValueKind::U128(u) => Node::Unsigned(u),
        ValueKind::Float(x) => Node::Float(x.to_bits()),
        ValueKind::String(s) => Node::Str(s),
        ValueKind::Array(a) => Node::Array(a.into_iter().map(lift).collect()),
        ValueKind::Table(t) => Node::Table(
            t.into_iter().map(|(key, v)| Entry { key, value: lift(v) }).collect(),
        ),
    }
}

/// The `Display` text of a `config::ConfigError`.
#[verifier::external_body]
fn error_text(e: &config::ConfigError) -> String {
    e.to_string()
}

/// Reads `text` as a TOML document.
///
/// Succeeds exactly on the texts that the TOML reader accepts, with the
/// root table it makes of them; any other text is a parse failure.
pub fn parse_document(text: &str) -> (r: Result<Node, Error>)
    ensures
        match toml_document(text@) {
            Some(tree) => r matches Ok(v) && v@ == tree,
            None => r matches Err(Error::ConfigParseError(_)),
        },
        r matches Ok(v) ==> v@ is Table && v@.wf(),
{
    match read_toml(text) {
        Ok(root) => Ok(lift(root)),
        Err(e) => Err(Error::ConfigParseError(error_text(&e))),
    }
}

} // verus!
