//! Durations in whole seconds, as the configuration writes them.

use crate::error::{Error, Failure};
use crate::text::{decimal, int_text, parse_decimal, render_signed, render_unsigned};
use crate::tree::{Node, Tree};
use std::time::Duration;
use vstd::prelude::*;

verus! {

/// The duration of `count` whole seconds.
pub uninterp spec fn seconds(count: u64) -> Duration;

/// `Duration::from_secs` makes the duration of that many whole seconds.
pub assume_specification[ Duration::from_secs ](secs: u64) -> (r: Duration)
    ensures
        r == seconds(secs),
;

/// A duration is copied by `clone`.
pub assume_specification[ <Duration as Clone>::clone ](d: &Duration) -> (r: Duration)
    ensures
        r == *d,
;

/// How long to wait for a signature when the configuration does not say.
pub open spec fn poll_timeout_default() -> u64 {
    180
}

/// How long to wait between two polls when the configuration does not say.
pub open spec fn poll_interval_default() -> u64 {
    5
}

/// The poll timeout that applies when none is configured: 180 seconds.
pub fn default_poll_timeout() -> (r: Duration)
    ensures
        r == seconds(poll_timeout_default()),
{
    Duration::from_secs(180)
}

/// The poll interval that applies when none is configured: 5 seconds.
pub fn default_poll_interval() -> (r: Duration)
    ensures
        r == seconds(poll_interval_default()),
{
    Duration::from_secs(5)
}

/// How a value that is no duration is named in the failure: a text by
/// itself, a number in decimal, a flag by its word, anything else by its
/// kind.
pub open spec fn described(value: Tree) -> Seq<char> {
    match value {
        Tree::Nil => "nil"@,
        Tree::Bool(b) => if b {
            "true"@
        } else {
            "false"@
        },
        Tree::Int(i) => int_text(i),
        Tree::Float(_) => "float"@,
        Tree::Str(s) => s,
        Tree::Array(_) => "array"@,
        Tree::Table(_) => "table"@,
    }
}

/// The duration that a configuration value gives: a decimal text or a
/// count of seconds, up to the largest 64-bit count. Any other value is
/// an invalid duration, named in the failure.
pub open spec fn duration_of(value: Tree) -> Result<Duration, Failure> {
    match value {
        Tree::Str(s) => match decimal(s) {
            Some(count) => Ok(seconds(count)),
            None => Err(Failure::InvalidDuration(s)),
        },
        Tree::Int(i) => if 0 <= i <= u64::MAX {
            Ok(seconds(i as u64))
        } else {
            Err(Failure::InvalidDuration(int_text(i)))
        },
        _ => Err(Failure::InvalidDuration(described(value))),
    }
}

/// Every duration that a value decodes to is a count of whole seconds.
pub proof fn whole_seconds_law(value: Tree)
    ensures
        duration_of(value) matches Ok(d) ==> exists|count: u64| d == #[trigger] seconds(count),
{
    match value {
        Tree::Str(s) => {
            if let Some(count) = decimal(s) {
                assert(duration_of(value) == Ok::<Duration, Failure>(seconds(count)));
            }
        },
        Tree::Int(i) => {
            if 0 <= i <= u64::MAX {
                assert(duration_of(value) == Ok::<Duration, Failure>(seconds(i as u64)));
            }
        },
        _ => {},
    }
}

/// The text that names `value` in a failure.
pub fn describe(value: &Node) -> (r: String)
    ensures
        r@ == described(value@),
{
    match value {
        Node::Nil => "nil".to_owned(),
        Node::Bool(b) => if *b {
            "true".to_owned()
        } else {
            "false".to_owned()
        },
        Node::Int(i) => render_signed(*i),
        Node::Unsigned(u) => render_unsigned(*u),
        Node::Float(_) => "float".to_owned(),
        Node::Str(s) => s.clone(),
        Node::Array(_) => "array".to_owned(),
        Node::Table(_) => "table".to_owned(),
    }
}

/// Decodes a duration written as text.
pub fn parse_duration(text: &str) -> (r: Result<Duration, Error>)
    ensures
        match decimal(text@) {
            Some(count) => r == Ok::<Duration, Error>(seconds(count)),
            None => r matches Err(Error::InvalidDuration(value)) && value@ == text@,
        },
{
    match parse_decimal(text) {
        Some(count) => Ok(Duration::from_secs(count)),
        None => Err(Error::InvalidDuration(text.to_owned())),
    }
}

/// Decodes a duration from a configuration value.
pub fn decode_duration(value: &Node) -> (r: Result<Duration, Error>)
    ensures
        match duration_of(value@) {
            Ok(d) => r == Ok::<Duration, Error>(d),
            Err(failure) => r matches Err(e) && e@ == failure,
        },
{
    match value {
        Node::Str(s) => parse_duration(s.as_str()),
        Node::Int(i) => {
            if 0 <= *i && *i <= 0xffff_ffff_ffff_ffff {
                Ok(Duration::from_secs(*i as u64))
            } else {
                Err(Error::InvalidDuration(render_signed(*i)))
            }
        },
        Node::Unsigned(u) => {
            if *u <= 0xffff_ffff_ffff_ffff {
                Ok(Duration::from_secs(*u as u64))
            } else {
                Err(Error::InvalidDuration(render_unsigned(*u)))
            }
        },
        _ => Err(Error::InvalidDuration(describe(value))),
    }
}

} // verus!
