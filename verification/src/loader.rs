//! Loading a configuration from its layers.
//!
//! The layers are a base document, the override documents in the order
//! given, and the environment, which has the last word. The caller reads
//! the documents and the environment; what it read is handed in as plain
//! values.

use crate::document::{parse_document, toml_document};
use crate::env::{env_key, env_layer, env_table, env_tree, env_value, env_view};
use crate::env::{is_secret_variable, is_table_name, lemma_env_entries_wf, lemma_env_root_key};
use crate::env::{lemma_env_value_plain, lemma_secret_key, lemma_secret_variable};
use crate::error::{outcome, Error, Failure};
use crate::duration::{seconds, whole_seconds_law};
use crate::schema::{decode, duration_default_law, extras_unique_law, section_entries};
use crate::schema::{text_option, ConfigModel, FireblocksConfig};
use crate::tree::{lemma_overlay_wf, lookup, overlay, overlay_law, unique_keys, Node, Tree};
use vstd::prelude::*;
use vstd::string::StringExecFns;

verus! {

/// A document as the caller found it: its path, and its text unless it
/// could not be read.
#[derive(Clone, Debug, PartialEq, Eq)]
pub struct SourceFile {
    pub path: String,
    pub text: Option<String>,
}

/// The content of a source file.
pub struct SourceModel {
    pub path: Seq<char>,
    pub text: Option<Seq<char>>,
}

impl View for SourceFile {
    type V = SourceModel;

    open spec fn view(&self) -> SourceModel {
        SourceModel { path: self.path@, text: text_option(self.text) }
    }
}

/// The content of a list of source files.
pub open spec fn files_view(files: Seq<SourceFile>) -> Seq<SourceModel> {
    Seq::new(files.len(), |i: int| files[i]@)
}

/// The root table of a text that is a document: a well-formed table.
pub open spec fn document(text: Seq<char>) -> Option<Tree> {
    match toml_document(text) {
        Some(tree) => if tree is Table && tree.wf() {
            Some(tree)
        } else {
            None
        },
        None => None,
    }
}

/// The tree of the base document. A base that could not be read is a
/// configuration not found; one that is no document is a parse failure.
pub open spec fn base_tree(base: SourceModel) -> Result<Tree, Failure> {
    match base.text {
        None => Err(Failure::ConfigNotFound { path: base.path }),
        Some(text) => match document(text) {
            Some(tree) => Ok(tree),
            None => Err(Failure::ConfigParseError),
        },
    }
}

/// The tree of an override document. Every override is required: one that
/// could not be read, or is no document, is a parse failure.
pub open spec fn override_tree(file: SourceModel) -> Result<Tree, Failure> {
    match file.text {
        None => Err(Failure::ConfigParseError),
        Some(text) => match document(text) {
            Some(tree) => Ok(tree),
            None => Err(Failure::ConfigParseError),
        },
    }
}

/// The base with the first `n` overrides layered on it, in order.
pub open spec fn stacked(base: SourceModel, overrides: Seq<SourceModel>, n: int) -> Result<
    Tree,
    Failure,
>
    decreases n,
{
    if n <= 0 || n > overrides.len() {
        base_tree(base)
    } else {
        match stacked(base, overrides, n - 1) {
            Err(failure) => Err(failure),
            Ok(below) => match override_tree(overrides[n - 1]) {
                Err(failure) => Err(failure),
                Ok(over) => Ok(overlay(below, over)),
            },
        }
    }
}

/// The configuration that the layers resolve to: the documents stacked in
/// order, the environment layered on top, and the result decoded.
pub open spec fn loaded(
    base: SourceModel,
    overrides: Seq<SourceModel>,
    env: Seq<(Seq<char>, Seq<char>)>,
) -> Result<ConfigModel, Failure> {
    match stacked(base, overrides, overrides.len() as int) {
        Err(failure) => Err(failure),
        Ok(files) => decode(overlay(files, env_tree(env))),
    }
}

/// Reads the base document.
fn read_base(file: &SourceFile) -> (r: Result<Node, Error>)
    ensures
        outcome(r) == base_tree(file@),
{
    match &file.text {
        None => Err(Error::ConfigNotFound { path: file.path.clone() }),
        Some(text) => parse_document(text.as_str()),
    }
}

/// Reads an override document.
fn read_override(file: &SourceFile) -> (r: Result<Node, Error>)
    ensures
        outcome(r) == override_tree(file@),
{
    match &file.text {
        None => Err(
            Error::ConfigParseError(
                String::from_str("configuration file \"").concat(file.path.as_str()).concat(
                    "\" not found",
                ),
            ),
        ),
        Some(text) => parse_document(text.as_str()),
    }
}

/// Loads the configuration from the base, the first `count` of
/// `overrides` and the environment.
pub(crate) fn load(
    cfg: &SourceFile,
    overrides: &Vec<SourceFile>,
    count: usize,
    env: &Vec<(String, String)>,
) -> (r: Result<FireblocksConfig, Error>)
    requires
        count <= overrides.len(),
    ensures
        outcome(r) == loaded(cfg@, files_view(overrides@).take(count as int), env_view(env@)),
{
    let ghost files = files_view(overrides@).take(count as int);
    let mut tree = match read_base(cfg) {
        Ok(tree) => tree,
        Err(e) => {
            proof {
                lemma_stacked_fails(cfg@, files, 0, count as int);
            }
            return Err(e);
        },
    };
    let mut i: usize = 0;
    while i < count
        invariant
            i <= count <= overrides.len(),
            files == files_view(overrides@).take(count as int),
            stacked(cfg@, files, i as int) == Ok::<Tree, Failure>(tree@),
        decreases count - i,
    {
        let over = match read_override(&overrides[i]) {
            Ok(over) => over,
            Err(e) => {
                proof {
                    lemma_stacked_fails(cfg@, files, i as int + 1, count as int);
                }
                return Err(e);
            },
        };
        tree = tree.overlay(&over);
        i += 1;
    }
    let layer = env_layer(env);
    let merged = tree.overlay(&layer);
    FireblocksConfig::from_tree(&merged)
}

impl FireblocksConfig {
    /// Loads the configuration from a base document, override documents
    /// and the variables of the environment.
    ///
    /// Later layers win key by key: an override over the base and over the
    /// overrides before it, the environment over every document.
    pub fn new(
        cfg: &SourceFile,
        cfg_overrides: &Vec<SourceFile>,
        env: &Vec<(String, String)>,
    ) -> (r: Result<FireblocksConfig, Error>)
        ensures
            outcome(r) == loaded(cfg@, files_view(cfg_overrides@), env_view(env@)),
    {
        assert(files_view(cfg_overrides@).take(cfg_overrides.len() as int) =~= files_view(
            cfg_overrides@,
        ));
        load(cfg, cfg_overrides, cfg_overrides.len(), env)
    }

    /// Loads the configuration like [`FireblocksConfig::new`], from
    /// overrides that the caller hands over.
    pub fn with_overrides(
        cfg: &SourceFile,
        overrides: Vec<SourceFile>,
        env: &Vec<(String, String)>,
    ) -> (r: Result<FireblocksConfig, Error>)
        ensures
            outcome(r) == loaded(cfg@, files_view(overrides@), env_view(env@)),
    {
        FireblocksConfig::new(cfg, &overrides, env)
    }
}

/// Once stacking has failed, it fails the same way however many further
/// overrides follow.
pub proof fn lemma_stacked_fails(base: SourceModel, overrides: Seq<SourceModel>, n: int, m: int)
    requires
        0 <= n <= m <= overrides.len(),
        stacked(base, overrides, n) is Err,
    ensures
        stacked(base, overrides, m) == stacked(base, overrides, n),
    decreases m - n,
{
    if n < m {
        lemma_stacked_fails(base, overrides, n, m - 1);
    }
}

/// The layering law for documents. Where a base and one override stack,
/// both are documents, and under every key the result holds: the value of
/// the override where only the override has the key; the value of the
/// override layered on that of the base where both have it, which is the
/// override's value itself unless both values are tables; the value of the
/// base where only the base has it; and nothing where neither has it.
pub proof fn override_law(base: SourceModel, over: SourceModel, key: Seq<char>)
    ensures
        stacked(base, seq![over], 1) matches Ok(tree) ==> {
            &&& base_tree(base) matches Ok(below)
            &&& override_tree(over) matches Ok(above)
            &&& tree.get(key) == (match (below.get(key), above.get(key)) {
                (before, None) => before,
                (None, Some(v)) => Some(v),
                (Some(b), Some(v)) => Some(overlay(b, v)),
            })
        },
        forall|b: Tree, v: Tree| !(b is Table && v is Table) ==> #[trigger] overlay(b, v) == v,
{
    let overrides = seq![over];
    assert(overrides[0] == over);
    assert(stacked(base, overrides, 0) == base_tree(base));
    match (base_tree(base), override_tree(over)) {
        (Ok(below), Ok(above)) => {
            overlay_law(below, above, key);
        },
        _ => {},
    }
}

/// Documents that stack give a well-formed table.
pub proof fn lemma_stacked_wf(base: SourceModel, overrides: Seq<SourceModel>, n: int)
    requires
        0 <= n <= overrides.len(),
    ensures
        stacked(base, overrides, n) matches Ok(tree) ==> tree is Table && tree.wf(),
    decreases n,
{
    if n > 0 {
        lemma_stacked_wf(base, overrides, n - 1);
        match (stacked(base, overrides, n - 1), override_tree(overrides[n - 1])) {
            (Ok(below), Ok(over)) => {
                lemma_overlay_wf(below, over);
            },
            _ => {},
        }
    }
}

/// Every configuration that loads keeps the invariants of its parts: the
/// extra store holds each key once, and both durations of the signer are
/// counts of whole seconds.
pub proof fn loaded_invariants_law(
    base: SourceModel,
    overrides: Seq<SourceModel>,
    env: Seq<(Seq<char>, Seq<char>)>,
)
    ensures
        loaded(base, overrides, env) matches Ok(config) ==> {
            &&& unique_keys(config.extra)
            &&& exists|count: u64| config.signer.poll_timeout == #[trigger] seconds(count)
            &&& exists|count: u64| config.signer.poll_interval == #[trigger] seconds(count)
        },
{
    lemma_stacked_wf(base, overrides, overrides.len() as int);
    match stacked(base, overrides, overrides.len() as int) {
        Err(_) => {},
        Ok(files) => {
            lemma_env_entries_wf(env, env.len() as int);
            lemma_overlay_wf(files, env_tree(env));
            let root = overlay(files, env_tree(env));
            extras_unique_law(root);
            if let Ok(config) = decode(root) {
                let top = root->Table_0;
                let signer = section_entries(top, "signer"@);
                duration_default_law(top);
                match lookup(signer, "poll_timeout"@) {
                    None => {
                        assert(config.signer.poll_timeout == seconds(180));
                    },
                    Some(value) => {
                        whole_seconds_law(value);
                    },
                }
                match lookup(signer, "poll_interval"@) {
                    None => {
                        assert(config.signer.poll_interval == seconds(5));
                    },
                    Some(value) => {
                        whole_seconds_law(value);
                    },
                }
            }
        },
    }
}

/// The environment has the last word. When a variable sets a key of the
/// root and no later variable sets the same key, the merged tree holds
/// the variable's value under that key, whatever the documents say.
pub proof fn environment_law(
    base: SourceModel,
    overrides: Seq<SourceModel>,
    env: Seq<(Seq<char>, Seq<char>)>,
    i: int,
    key: Seq<char>,
)
    requires
        0 <= i < env.len(),
        env_key(env[i].0) == Some(key),
        env_table(key) is None,
        !is_table_name(key),
        forall|j: int| i < j < env.len() ==> env_key(#[trigger] env[j].0) != Some(key),
    ensures
        stacked(base, overrides, overrides.len() as int) matches Ok(files) ==> overlay(
            files,
            env_tree(env),
        ).get(key) == Some(env_value(key, env[i].1)),
{
    lemma_stacked_wf(base, overrides, overrides.len() as int);
    match stacked(base, overrides, overrides.len() as int) {
        Err(_) => {},
        Ok(files) => {
            lemma_env_root_key(env, i, env.len() as int, key);
            lemma_env_entries_wf(env, env.len() as int);
            lemma_env_value_plain(key, env[i].1);
            overlay_law(files, env_tree(env), key);
        },
    }
}

/// The environment has the last word on the secret. When the variable
/// `FIREBLOCKS_SECRET` is set, in this or any other case, every
/// configuration that loads holds its value, unchanged, as its secret,
/// whatever the documents say. Where the variable occurs more than once,
/// the last occurrence counts.
pub proof fn environment_secret_law(
    base: SourceModel,
    overrides: Seq<SourceModel>,
    env: Seq<(Seq<char>, Seq<char>)>,
    i: int,
)
    requires
        0 <= i < env.len(),
        is_secret_variable(env[i].0),
        forall|j: int| i < j < env.len() ==> !is_secret_variable(#[trigger] env[j].0),
    ensures
        loaded(base, overrides, env) matches Ok(config) ==> config.secret == Some(env[i].1),
{
    lemma_secret_variable(env[i].0);
    assert forall|j: int| i < j < env.len() implies env_key(#[trigger] env[j].0) != Some(
        "secret"@,
    ) by {
        lemma_secret_variable(env[j].0);
    }
    lemma_secret_key();
    environment_law(base, overrides, env, i, "secret"@);
}

} // verus!
