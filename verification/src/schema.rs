//! The typed configuration and how it is decoded from a merged tree.
//!
//! Declared fields are decoded strictly: a field of the wrong kind is a
//! failure. Every key that is not a declared field is kept, untouched, in
//! the `extra` store.

use crate::duration::{decode_duration, duration_of, seconds};
use crate::duration::{default_poll_interval, default_poll_timeout};
use crate::duration::{poll_interval_default, poll_timeout_default};
use crate::error::{outcome, Error, Failure};
use crate::text::{lower, lowercase, same_text};
use crate::tree::{duplicate_entries, entries_view, first_index, lemma_first_index, lookup};
use crate::tree::{position, unique_keys, Entry, Node, Tree};
use std::time::Duration;
use vstd::prelude::*;
use vstd::string::StringExecFns;

verus! {

/// How results are shown.
#[derive(Copy, Clone, PartialEq, Eq, PartialOrd, Ord, Debug, Structural)]
pub enum OutputFormat {
    /// Ascii table
    Table,
    /// Tab separated
    Tsv,
    Json,
}

impl Default for OutputFormat {
    fn default() -> (r: Self)
        ensures
            r == OutputFormat::Table,
    {
        OutputFormat::Table
    }
}

/// The `display` section.
#[derive(Copy, Clone, Debug, PartialEq, Eq)]
pub struct DisplayConfig {
    pub output: OutputFormat,
}

impl Default for DisplayConfig {
    fn default() -> (r: Self)
        ensures
            r.output == OutputFormat::Table,
    {
        DisplayConfig { output: OutputFormat::Table }
    }
}

/// The `signer` section.
#[derive(Clone, Debug, PartialEq, Eq)]
pub struct Signer {
    pub poll_timeout: Duration,
    pub poll_interval: Duration,
    /// The vault id
    pub vault: String,
}

/// The fully resolved configuration.
#[derive(Clone, Debug, PartialEq, Eq)]
pub struct FireblocksConfig {
    pub api_key: String,
    pub url: String,
    pub secret_path: Option<String>,
    pub secret: Option<String>,
    pub display_config: DisplayConfig,
    pub signer: Signer,
    /// Arbitrary extra configuration values
    pub extra: Vec<Entry>,
    /// Enable debug mode
    pub debug: bool,
    pub mainnet: bool,
}

impl Default for Signer {
    /// The empty signer: no vault, and durations of no length. The named
    /// defaults of the durations apply when a configuration is decoded.
    fn default() -> (r: Self)
        ensures
            r@ == (SignerModel {
                poll_timeout: seconds(0),
                poll_interval: seconds(0),
                vault: Seq::empty(),
            }),
    {
        Signer {
            poll_timeout: Duration::from_secs(0),
            poll_interval: Duration::from_secs(0),
            vault: String::new(),
        }
    }
}

impl Default for FireblocksConfig {
    /// The empty configuration.
    fn default() -> (r: Self)
        ensures
            r@ == (ConfigModel {
                api_key: Seq::empty(),
                url: Seq::empty(),
                secret_path: None,
                secret: None,
                output: OutputFormat::Table,
                signer: SignerModel {
                    poll_timeout: seconds(0),
                    poll_interval: seconds(0),
                    vault: Seq::empty(),
                },
                extra: Seq::empty(),
                debug: false,
                mainnet: false,
            }),
    {
        let extra: Vec<Entry> = Vec::new();
        assert(entries_view(extra@) =~= Seq::empty());
        FireblocksConfig {
            api_key: String::new(),
            url: String::new(),
            secret_path: None,
            secret: None,
            display_config: DisplayConfig { output: OutputFormat::Table },
            signer: Signer::default(),
            extra,
            debug: false,
            mainnet: false,
        }
    }
}

/// The content of a signer section.
pub struct SignerModel {
    pub poll_timeout: Duration,
    pub poll_interval: Duration,
    pub vault: Seq<char>,
}

/// The content of a configuration.
pub struct ConfigModel {
    pub api_key: Seq<char>,
    pub url: Seq<char>,
    pub secret_path: Option<Seq<char>>,
    pub secret: Option<Seq<char>>,
    pub output: OutputFormat,
    pub signer: SignerModel,
    pub extra: Seq<(Seq<char>, Tree)>,
    pub debug: bool,
    pub mainnet: bool,
}

/// The content of an optional text.
pub open spec fn text_option(text: Option<String>) -> Option<Seq<char>> {
    match text {
        Some(s) => Some(s@),
        None => None,
    }
}

impl View for Signer {
    type V = SignerModel;

    open spec fn view(&self) -> SignerModel {
        SignerModel {
            poll_timeout: self.poll_timeout,
            poll_interval: self.poll_interval,
            vault: self.vault@,
        }
    }
}

impl View for FireblocksConfig {
    type V = ConfigModel;

    open spec fn view(&self) -> ConfigModel {
        ConfigModel {
            api_key: self.api_key@,
            url: self.url@,
            secret_path: text_option(self.secret_path),
            secret: text_option(self.secret),
            output: self.display_config.output,
            signer: self.signer@,
            extra: entries_view(self.extra@),
            debug: self.debug,
            mainnet: self.mainnet,
        }
    }
}

/// The tables whose keys the schema declares.
#[derive(Copy, Clone, PartialEq, Eq, Debug, Structural)]
pub enum Section {
    Root,
    Signer,
    Display,
}

/// Whether `key` is a declared field of `section`.
pub open spec fn declared(section: Section, key: Seq<char>) -> bool {
    match section {
        Section::Root => {
            ||| key == "api_key"@
            ||| key == "url"@
            ||| key == "secret_path"@
            ||| key == "secret"@
            ||| key == "debug"@
            ||| key == "mainnet"@
            ||| key == "display"@
            ||| key == "signer"@
            ||| key == "extra"@
        },
        Section::Signer => {
            ||| key == "vault"@
            ||| key == "poll_timeout"@
            ||| key == "poll_interval"@
        },
        Section::Display => key == "output"@,
    }
}

/// An optional text field: absent, a text, or a failure for any other kind.
pub open spec fn text_at(entries: Seq<(Seq<char>, Tree)>, key: Seq<char>) -> Result<
    Option<Seq<char>>,
    Failure,
> {
    match lookup(entries, key) {
        None => Ok(None),
        Some(Tree::Str(s)) => Ok(Some(s)),
        Some(_) => Err(Failure::ConfigParseError),
    }
}

/// A required text field: a text, or a failure when absent or of another
/// kind.
pub open spec fn required_text_at(entries: Seq<(Seq<char>, Tree)>, key: Seq<char>) -> Result<
    Seq<char>,
    Failure,
> {
    match lookup(entries, key) {
        Some(Tree::Str(s)) => Ok(s),
        _ => Err(Failure::ConfigParseError),
    }
}

/// A flag: false when absent, its value when a flag, a failure for any
/// other kind.
pub open spec fn flag_at(entries: Seq<(Seq<char>, Tree)>, key: Seq<char>) -> Result<
    bool,
    Failure,
> {
    match lookup(entries, key) {
        None => Ok(false),
        Some(Tree::Bool(b)) => Ok(b),
        Some(_) => Err(Failure::ConfigParseError),
    }
}

/// A duration field: the named default when absent, else what the value
/// decodes to. A value that is present and malformed is a failure.
pub open spec fn duration_at(
    entries: Seq<(Seq<char>, Tree)>,
    key: Seq<char>,
    fallback: u64,
) -> Result<Duration, Failure> {
    match lookup(entries, key) {
        None => Ok(seconds(fallback)),
        Some(value) => duration_of(value),
    }
}

/// The entries of the table stored under `name`; none when the key is
/// absent or holds no table.
pub open spec fn section_entries(top: Seq<(Seq<char>, Tree)>, name: Seq<char>) -> Seq<
    (Seq<char>, Tree),
> {
    match lookup(top, name) {
        Some(Tree::Table(entries)) => entries,
        _ => Seq::empty(),
    }
}

/// The output format that `name` names, whatever its case.
pub open spec fn output_named(name: Seq<char>) -> Option<OutputFormat> {
    if lower(name) == "table"@ {
        Some(OutputFormat::Table)
    } else if lower(name) == "tsv"@ {
        Some(OutputFormat::Tsv)
    } else if lower(name) == "json"@ {
        Some(OutputFormat::Json)
    } else {
        None
    }
}

/// The output format of a root table: `Table` unless `display.output`
/// names another.
pub open spec fn output_of(top: Seq<(Seq<char>, Tree)>) -> Result<OutputFormat, Failure> {
    match lookup(top, "display"@) {
        None => Ok(OutputFormat::Table),
        Some(Tree::Table(display)) => match lookup(display, "output"@) {
            None => Ok(OutputFormat::Table),
            Some(Tree::Str(name)) => match output_named(name) {
                Some(format) => Ok(format),
                None => Err(Failure::ConfigParseError),
            },
            Some(_) => Err(Failure::ConfigParseError),
        },
        Some(_) => Err(Failure::ConfigParseError),
    }
}

/// The signer section of a root table.
pub open spec fn signer_of(top: Seq<(Seq<char>, Tree)>) -> Result<SignerModel, Failure> {
    match lookup(top, "signer"@) {
        Some(Tree::Table(signer)) => match required_text_at(signer, "vault"@) {
            Err(failure) => Err(failure),
            Ok(vault) => match duration_at(signer, "poll_timeout"@, poll_timeout_default()) {
                Err(failure) => Err(failure),
                Ok(poll_timeout) => match duration_at(
                    signer,
                    "poll_interval"@,
                    poll_interval_default(),
                ) {
                    Err(failure) => Err(failure),
                    Ok(poll_interval) => Ok(SignerModel { poll_timeout, poll_interval, vault }),
                },
            },
        },
        _ => Err(Failure::ConfigParseError),
    }
}

/// `store` after the first `n` entries of `entries` were offered to it: an
/// entry is taken when its key is no declared field of `section` and the
/// store does not hold the key yet.
pub open spec fn captured(
    store: Seq<(Seq<char>, Tree)>,
    entries: Seq<(Seq<char>, Tree)>,
    section: Section,
    n: int,
) -> Seq<(Seq<char>, Tree)>
    decreases n,
{
    if n <= 0 || n > entries.len() {
        store
    } else {
        let before = captured(store, entries, section, n - 1);
        let entry = entries[n - 1];
        if declared(section, entry.0) || lookup(before, entry.0) is Some {
            before
        } else {
            before.push(entry)
        }
    }
}

/// The extra store of a root table: the entries of its `extra` table, then
/// the undeclared keys of the root, of `signer` and of `display`, each
/// unless the store holds the key already.
pub open spec fn extras_of(top: Seq<(Seq<char>, Tree)>) -> Result<
    Seq<(Seq<char>, Tree)>,
    Failure,
> {
    match lookup(top, "extra"@) {
        None => Ok(swept(Seq::empty(), top)),
        Some(Tree::Table(extra)) => Ok(swept(extra, top)),
        Some(_) => Err(Failure::ConfigParseError),
    }
}

/// `store` after the undeclared keys of the root and of its two sections
/// were offered to it.
pub open spec fn swept(store: Seq<(Seq<char>, Tree)>, top: Seq<(Seq<char>, Tree)>) -> Seq<
    (Seq<char>, Tree),
> {
    let signer = section_entries(top, "signer"@);
    let display = section_entries(top, "display"@);
    let first = captured(store, top, Section::Root, top.len() as int);
    let second = captured(first, signer, Section::Signer, signer.len() as int);
    captured(second, display, Section::Display, display.len() as int)
}

/// The configuration that a merged tree decodes to.
///
/// The fields are decoded in the order in which they are declared; the
/// first one that fails gives the failure.
pub open spec fn decode(root: Tree) -> Result<ConfigModel, Failure> {
    match root {
        Tree::Table(top) => match required_text_at(top, "api_key"@) {
            Err(failure) => Err(failure),
            Ok(api_key) => match required_text_at(top, "url"@) {
                Err(failure) => Err(failure),
                Ok(url) => match text_at(top, "secret_path"@) {
                    Err(failure) => Err(failure),
                    Ok(secret_path) => match text_at(top, "secret"@) {
                        Err(failure) => Err(failure),
                        Ok(secret) => match output_of(top) {
                            Err(failure) => Err(failure),
                            Ok(output) => match signer_of(top) {
                                Err(failure) => Err(failure),
                                Ok(signer) => match extras_of(top) {
                                    Err(failure) => Err(failure),
                                    Ok(extra) => match flag_at(top, "debug"@) {
                                        Err(failure) => Err(failure),
                                        Ok(debug) => match flag_at(top, "mainnet"@) {
                                            Err(failure) => Err(failure),
                                            Ok(mainnet) => Ok(
                                                ConfigModel {
                                                    api_key,
                                                    url,
                                                    secret_path,
                                                    secret,
                                                    output,
                                                    signer,
                                                    extra,
                                                    debug,
                                                    mainnet,
                                                },
                                            ),
                                        },
                                    },
                                },
                            },
                        },
                    },
                },
            },
        },
        _ => Err(Failure::ConfigParseError),
    }
}

/// Durations are defaulted only when absent. In every configuration that
/// a tree decodes to, a poll timeout or poll interval that the signer
/// section does not hold is the named default, 180 and 5 seconds; one that
/// the section holds is what its value decodes to, so a value that is
/// present and malformed never decodes, and never falls back to the
/// default.
pub proof fn duration_default_law(top: Seq<(Seq<char>, Tree)>)
    ensures
        decode(Tree::Table(top)) matches Ok(config) ==> {
            &&& match lookup(section_entries(top, "signer"@), "poll_timeout"@) {
                None => config.signer.poll_timeout == seconds(180),
                Some(value) => duration_of(value) == Ok::<Duration, Failure>(
                    config.signer.poll_timeout,
                ),
            }
            &&& match lookup(section_entries(top, "signer"@), "poll_interval"@) {
                None => config.signer.poll_interval == seconds(5),
                Some(value) => duration_of(value) == Ok::<Duration, Failure>(
                    config.signer.poll_interval,
                ),
            }
        },
{
}

/// Offering entries to a store whose keys are unique leaves them unique.
pub proof fn lemma_captured_unique(
    store: Seq<(Seq<char>, Tree)>,
    entries: Seq<(Seq<char>, Tree)>,
    section: Section,
    n: int,
)
    requires
        unique_keys(store),
        0 <= n <= entries.len(),
    ensures
        unique_keys(captured(store, entries, section, n)),
    decreases n,
{
    if n > 0 {
        lemma_captured_unique(store, entries, section, n - 1);
        let before = captured(store, entries, section, n - 1);
        let entry = entries[n - 1];
        if !declared(section, entry.0) && lookup(before, entry.0) is None {
            let after = before.push(entry);
            lemma_first_index(before, entry.0, 0);
            assert forall|a: int, b: int| 0 <= a < b < after.len() implies (#[trigger] after[a]).0
                != (#[trigger] after[b]).0 by {
                if b < before.len() {
                    assert(before[a].0 != before[b].0);
                } else {
                    assert(before[a].0 != entry.0);
                }
            }
        }
    }
}

/// The extra store holds each key once: in every configuration that a
/// well-formed tree decodes to, no two extra values share a key.
pub proof fn extras_unique_law(root: Tree)
    requires
        root.wf(),
    ensures
        decode(root) matches Ok(config) ==> unique_keys(config.extra),
{
    if let Tree::Table(top) = root {
        let start = match lookup(top, "extra"@) {
            Some(Tree::Table(extra)) => extra,
            _ => Seq::empty(),
        };
        lemma_first_index(top, "extra"@, 0);
        assert(unique_keys(start)) by {
            let at = first_index(top, "extra"@, 0);
            if at < top.len() {
                assert(top[at].1.wf());
            }
        }
        let signer = section_entries(top, "signer"@);
        let display = section_entries(top, "display"@);
        let first = captured(start, top, Section::Root, top.len() as int);
        let second = captured(first, signer, Section::Signer, signer.len() as int);
        lemma_captured_unique(start, top, Section::Root, top.len() as int);
        lemma_captured_unique(first, signer, Section::Signer, signer.len() as int);
        lemma_captured_unique(second, display, Section::Display, display.len() as int);
    }
}

/// Whether `key` is a declared field of `section`.
pub fn is_declared(section: Section, key: &str) -> (r: bool)
    ensures
        r == declared(section, key@),
{
    match section {
        Section::Root => {
            same_text(key, "api_key") || same_text(key, "url") || same_text(key, "secret_path")
                || same_text(key, "secret") || same_text(key, "debug") || same_text(
                key,
                "mainnet",
            ) || same_text(key, "display") || same_text(key, "signer") || same_text(key, "extra")
        },
        Section::Signer => {
            same_text(key, "vault") || same_text(key, "poll_timeout") || same_text(
                key,
                "poll_interval",
            )
        },
        Section::Display => same_text(key, "output"),
    }
}

/// The parse failure of a required field that is absent, naming the field.
fn missing(key: &str) -> (r: Error)
    ensures
        r matches Error::ConfigParseError(text) && text@ == missing_text(key@),
{
    Error::ConfigParseError(String::from_str("missing field `").concat(key).concat("`"))
}

/// The parse failure of a field of the wrong kind, naming field and kind.
fn mismatch(key: &str, expected: &str) -> (r: Error)
    ensures
        r matches Error::ConfigParseError(text) && text@ == mismatch_text(key@, expected@),
{
    Error::ConfigParseError(
        String::from_str("invalid type for `").concat(key).concat("`, expected ").concat(expected),
    )
}

/// What the failure of an absent field says.
pub open spec fn missing_text(key: Seq<char>) -> Seq<char> {
    "missing field `"@ + key + "`"@
}

/// What the failure of a field of the wrong kind says.
pub open spec fn mismatch_text(key: Seq<char>, expected: Seq<char>) -> Seq<char> {
    "invalid type for `"@ + key + "`, expected "@ + expected
}

/// Reads an optional text field.
fn text_field(entries: &Vec<Entry>, key: &str) -> (r: Result<Option<String>, Error>)
    ensures
        match text_at(entries_view(entries@), key@) {
            Ok(text) => r matches Ok(found) && text_option(found) == text,
            Err(failure) => r matches Err(e) && e@ == failure,
        },
{
    let at = position(entries, key);
    if at < entries.len() {
        match &entries[at].value {
            Node::Str(s) => Ok(Some(s.clone())),
            _ => Err(mismatch(key, "a string")),
        }
    } else {
        Ok(None)
    }
}

/// Reads a required text field.
fn required_text_field(entries: &Vec<Entry>, key: &str) -> (r: Result<String, Error>)
    ensures
        match required_text_at(entries_view(entries@), key@) {
            Ok(text) => r matches Ok(found) && found@ == text,
            Err(failure) => r matches Err(e) && e@ == failure,
        },
{
    let at = position(entries, key);
    if at < entries.len() {
        match &entries[at].value {
            Node::Str(s) => Ok(s.clone()),
            _ => Err(mismatch(key, "a string")),
        }
    } else {
        Err(missing(key))
    }
}

/// Reads a flag.
fn flag_field(entries: &Vec<Entry>, key: &str) -> (r: Result<bool, Error>)
    ensures
        match flag_at(entries_view(entries@), key@) {
            Ok(flag) => r == Ok::<bool, Error>(flag),
            Err(failure) => r matches Err(e) && e@ == failure,
        },
{
    let at = position(entries, key);
    if at < entries.len() {
        match &entries[at].value {
            Node::Bool(b) => Ok(*b),
            _ => Err(mismatch(key, "a boolean")),
        }
    } else {
        Ok(false)
    }
}

/// Reads the duration field `poll_timeout`.
fn poll_timeout_field(entries: &Vec<Entry>) -> (r: Result<Duration, Error>)
    ensures
        match duration_at(entries_view(entries@), "poll_timeout"@, poll_timeout_default()) {
            Ok(d) => r == Ok::<Duration, Error>(d),
            Err(failure) => r matches Err(e) && e@ == failure,
        },
{
    let at = position(entries, "poll_timeout");
    if at < entries.len() {
        decode_duration(&entries[at].value)
    } else {
        Ok(default_poll_timeout())
    }
}

/// Reads the duration field `poll_interval`.
fn poll_interval_field(entries: &Vec<Entry>) -> (r: Result<Duration, Error>)
    ensures
        match duration_at(entries_view(entries@), "poll_interval"@, poll_interval_default()) {
            Ok(d) => r == Ok::<Duration, Error>(d),
            Err(failure) => r matches Err(e) && e@ == failure,
        },
{
    let at = position(entries, "poll_interval");
    if at < entries.len() {
        decode_duration(&entries[at].value)
    } else {
        Ok(default_poll_interval())
    }
}

impl OutputFormat {
    /// The output format that `name` names, whatever its case.
    pub fn named(name: &str) -> (r: Option<OutputFormat>)
        ensures
            r == output_named(name@),
    {
        let lowered = lowercase(name);
        if same_text(lowered.as_str(), "table") {
            Some(OutputFormat::Table)
        } else if same_text(lowered.as_str(), "tsv") {
            Some(OutputFormat::Tsv)
        } else if same_text(lowered.as_str(), "json") {
            Some(OutputFormat::Json)
        } else {
            None
        }
    }
}

impl DisplayConfig {
    /// Decodes the display section of a root table.
    pub fn from_entries(top: &Vec<Entry>) -> (r: Result<DisplayConfig, Error>)
        ensures
            match output_of(entries_view(top@)) {
                Ok(output) => r matches Ok(display) && display.output == output,
                Err(failure) => r matches Err(e) && e@ == failure,
            },
    {
        let at = position(top, "display");
        if at == top.len() {
            return Ok(DisplayConfig { output: OutputFormat::Table });
        }
        match &top[at].value {
            Node::Table(display) => {
                let inner = position(display, "output");
                if inner == display.len() {
                    return Ok(DisplayConfig { output: OutputFormat::Table });
                }
                match &display[inner].value {
                    Node::Str(name) => match OutputFormat::named(name.as_str()) {
                        Some(output) => Ok(DisplayConfig { output }),
                        None => Err(mismatch("display.output", "table, tsv or json")),
                    },
                    _ => Err(mismatch("display.output", "a string")),
                }
            },
            _ => Err(mismatch("display", "a table")),
        }
    }
}

impl Signer {
    /// Decodes the signer section of a root table.
    pub fn from_entries(top: &Vec<Entry>) -> (r: Result<Signer, Error>)
        ensures
            outcome(r) == signer_of(entries_view(top@)),
    {
        let at = position(top, "signer");
        if at == top.len() {
            return Err(missing("signer"));
        }
        match &top[at].value {
            Node::Table(signer) => {
                let vault = match required_text_field(signer, "vault") {
                    Ok(vault) => vault,
                    Err(e) => {
                        return Err(e);
                    },
                };
                let poll_timeout = match poll_timeout_field(signer) {
                    Ok(d) => d,
                    Err(e) => {
                        return Err(e);
                    },
                };
                let poll_interval = match poll_interval_field(signer) {
                    Ok(d) => d,
                    Err(e) => {
                        return Err(e);
                    },
                };
                Ok(Signer { poll_timeout, poll_interval, vault })
            },
            _ => Err(mismatch("signer", "a table")),
        }
    }
}

/// Offers the entries of `entries` to `store`, in order.
fn capture(store: Vec<Entry>, entries: &Vec<Entry>, section: Section) -> (r: Vec<Entry>)
    ensures
        entries_view(r@) == captured(
            entries_view(store@),
            entries_view(entries@),
            section,
            entries.len() as int,
        ),
{
    let mut out = store;
    let mut i: usize = 0;
    while i < entries.len()
        invariant
            i <= entries.len(),
            entries_view(out@) == captured(
                entries_view(store@),
                entries_view(entries@),
                section,
                i as int,
            ),
        decreases entries.len() - i,
    {
        let entry = &entries[i];
        let ghost before = entries_view(out@);
        if !is_declared(section, entry.key.as_str()) && position(&out, entry.key.as_str())
            == out.len() {
            let value = entry.value.duplicate();
            out.push(Entry { key: entry.key.clone(), value });
            assert(entries_view(out@) =~= before.push((entry.key@, entry.value@)));
        }
        i += 1;
    }
    out
}

/// The entries of the table stored under `name`; none when the key is
/// absent or holds no table.
fn section_of(top: &Vec<Entry>, name: &str) -> (r: Vec<Entry>)
    ensures
        entries_view(r@) == section_entries(entries_view(top@), name@),
{
    let at = position(top, name);
    if at < top.len() {
        match &top[at].value {
            Node::Table(entries) => duplicate_entries(entries),
            _ => {
                let none: Vec<Entry> = Vec::new();
                assert(entries_view(none@) =~= Seq::empty());
                none
            },
        }
    } else {
        let none: Vec<Entry> = Vec::new();
        assert(entries_view(none@) =~= Seq::empty());
        none
    }
}

/// Builds the extra store of a root table.
fn extras(top: &Vec<Entry>) -> (r: Result<Vec<Entry>, Error>)
    ensures
        match extras_of(entries_view(top@)) {
            Ok(store) => r matches Ok(found) && entries_view(found@) == store,
            Err(failure) => r matches Err(e) && e@ == failure,
        },
{
    let at = position(top, "extra");
    let start: Vec<Entry> = if at < top.len() {
        match &top[at].value {
            Node::Table(extra) => duplicate_entries(extra),
            _ => {
                return Err(mismatch("extra", "a table"));
            },
        }
    } else {
        let none: Vec<Entry> = Vec::new();
        assert(entries_view(none@) =~= Seq::empty());
        none
    };
    let signer = section_of(top, "signer");
    let display = section_of(top, "display");
    let first = capture(start, top, Section::Root);
    let second = capture(first, &signer, Section::Signer);
    Ok(capture(second, &display, Section::Display))
}

impl FireblocksConfig {
    /// Decodes a merged tree into the typed configuration.
    pub fn from_tree(root: &Node) -> (r: Result<FireblocksConfig, Error>)
        ensures
            outcome(r) == decode(root@),
    {
        let top = match root {
            Node::Table(top) => top,
            _ => {
                return Err(mismatch("configuration", "a table"));
            },
        };
        let api_key = match required_text_field(top, "api_key") {
            Ok(text) => text,
            Err(e) => {
                return Err(e);
            },
        };
        let url = match required_text_field(top, "url") {
            Ok(text) => text,
            Err(e) => {
                return Err(e);
            },
        };
        let secret_path = match text_field(top, "secret_path") {
            Ok(text) => text,
            Err(e) => {
                return Err(e);
            },
        };
        let secret = match text_field(top, "secret") {
            Ok(text) => text,
            Err(e) => {
                return Err(e);
            },
        };
        let display_config = match DisplayConfig::from_entries(top) {
            Ok(display) => display,
            Err(e) => {
                return Err(e);
            },
        };
        let signer = match Signer::from_entries(top) {
            Ok(signer) => signer,
            Err(e) => {
                return Err(e);
            },
        };
        let extra = match extras(top) {
            Ok(store) => store,
            Err(e) => {
                return Err(e);
            },
        };
        let debug = match flag_field(top, "debug") {
            Ok(flag) => flag,
            Err(e) => {
                return Err(e);
            },
        };
        let mainnet = match flag_field(top, "mainnet") {
            Ok(flag) => flag,
            Err(e) => {
                return Err(e);
            },
        };
        Ok(
            FireblocksConfig {
                api_key,
                url,
                secret_path,
                secret,
                display_config,
                signer,
                extra,
                debug,
                mainnet,
            },
        )
    }
}

} // verus!
