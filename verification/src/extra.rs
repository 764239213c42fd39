//! The store of extra values: every key of the configuration that is no
//! declared field, with typed access.

use crate::duration::seconds;
use crate::error::{Error, Failure};
use crate::schema::FireblocksConfig;
use crate::tree::{lookup, position, Node, Tree};
use std::time::Duration;
use vstd::prelude::*;
use vstd::string::StringExecFns;

verus! {

/// The extra value under `key`; the failure of an absent key names the key.
pub open spec fn extra_at(store: Seq<(Seq<char>, Tree)>, key: Seq<char>) -> Result<Tree, Failure> {
    match lookup(store, key) {
        Some(value) => Ok(value),
        None => Err(Failure::NotPresent { key }),
    }
}

/// What typed access gives: the value read as the requested kind, a parse
/// failure when it is of another kind, not present when the key is absent.
pub open spec fn typed<T>(found: Result<Tree, Failure>, read: spec_fn(Tree) -> Option<T>) -> Result<
    T,
    Failure,
> {
    match found {
        Err(failure) => Err(failure),
        Ok(value) => match read(value) {
            Some(typed) => Ok(typed),
            None => Err(Failure::ConfigParseError),
        },
    }
}

/// The parse failure of an extra value of the wrong kind, naming key and kind.
fn unfit(key: &str, expected: &str) -> (r: Error)
    ensures
        r matches Error::ConfigParseError(text) && text@ == unfit_text(key@, expected@),
{
    Error::ConfigParseError(
        String::from_str("Failed to deserialize key '").concat(key).concat("': expected ").concat(
            expected,
        ),
    )
}

/// What the failure of an extra value of the wrong kind says.
pub open spec fn unfit_text(key: Seq<char>, expected: Seq<char>) -> Seq<char> {
    "Failed to deserialize key '"@ + key + "': expected "@ + expected
}

impl FireblocksConfig {
    /// The extra value stored under `key`, of whatever kind it is.
    pub fn get_extra(&self, key: &str) -> (r: Result<&Node, Error>)
        ensures
            match extra_at(self@.extra, key@) {
                Ok(value) => r matches Ok(node) && node@ == value,
                Err(failure) => r matches Err(e) && e@ == failure,
            },
    {
        let at = position(&self.extra, key);
        if at < self.extra.len() {
            Ok(&self.extra[at].value)
        } else {
            Err(Error::NotPresent { key: key.to_owned() })
        }
    }

    /// The extra text stored under `key`.
    pub fn get_extra_string(&self, key: &str) -> (r: Result<String, Error>)
        ensures
            match typed(extra_at(self@.extra, key@), |v: Tree| v.as_text()) {
                Ok(text) => r matches Ok(s) && s@ == text,
                Err(failure) => r matches Err(e) && e@ == failure,
            },
    {
        match self.get_extra(key) {
            Ok(node) => match node.as_text() {
                Some(text) => Ok(text.clone()),
                None => Err(unfit(key, "a string")),
            },
            Err(e) => Err(e),
        }
    }

    /// The extra flag stored under `key`.
    pub fn get_extra_bool(&self, key: &str) -> (r: Result<bool, Error>)
        ensures
            match typed(extra_at(self@.extra, key@), |v: Tree| v.as_flag()) {
                Ok(flag) => r == Ok::<bool, Error>(flag),
                Err(failure) => r matches Err(e) && e@ == failure,
            },
    {
        match self.get_extra(key) {
            Ok(node) => match node.as_flag() {
                Some(flag) => Ok(flag),
                None => Err(unfit(key, "a boolean")),
            },
            Err(e) => Err(e),
        }
    }

    /// The extra whole number stored under `key`, within the signed 64-bit
    /// range.
    pub fn get_extra_i64(&self, key: &str) -> (r: Result<i64, Error>)
        ensures
            match typed(extra_at(self@.extra, key@), |v: Tree| v.as_signed()) {
                Ok(number) => r == Ok::<i64, Error>(number),
                Err(failure) => r matches Err(e) && e@ == failure,
            },
    {
        match self.get_extra(key) {
            Ok(node) => match node.as_signed() {
                Some(number) => Ok(number),
                None => Err(unfit(key, "a 64-bit integer")),
            },
            Err(e) => Err(e),
        }
    }

    /// The extra count stored under `key`, within the unsigned 64-bit
    /// range.
    pub fn get_extra_u64(&self, key: &str) -> (r: Result<u64, Error>)
        ensures
            match typed(extra_at(self@.extra, key@), |v: Tree| v.as_count()) {
                Ok(count) => r == Ok::<u64, Error>(count),
                Err(failure) => r matches Err(e) && e@ == failure,
            },
    {
        match self.get_extra(key) {
            Ok(node) => match node.as_count() {
                Some(count) => Ok(count),
                None => Err(unfit(key, "an unsigned 64-bit integer")),
            },
            Err(e) => Err(e),
        }
    }

    /// The extra count stored under `key`, as a duration of that many
    /// whole seconds.
    pub fn get_extra_duration(&self, key: &str) -> (r: Result<Duration, Error>)
        ensures
            match typed(extra_at(self@.extra, key@), |v: Tree| v.as_count()) {
                Ok(count) => r == Ok::<Duration, Error>(seconds(count)),
                Err(failure) => r matches Err(e) && e@ == failure,
            },
    {
        match self.get_extra_u64(key) {
            Ok(count) => Ok(Duration::from_secs(count)),
            Err(e) => Err(e),
        }
    }

    /// Whether an extra value is stored under `key`.
    pub fn has_extra(&self, key: &str) -> (r: bool)
        ensures
            r == (lookup(self@.extra, key@) is Some),
    {
        position(&self.extra, key) < self.extra.len()
    }
}

} // verus!
