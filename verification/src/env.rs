//! The layer that the environment contributes.
//!
//! A variable counts when its name, in any case, begins with
//! `FIREBLOCKS_` and goes on after it. The rest of the name, in lower
//! case, is the key. A key that begins with `signer_`, `display_` or
//! `extra_` names a field of that table; any other key is a field of the
//! root. A field that the schema declares as text keeps the variable's
//! value as it is; any other field takes `true` and `false` as flags and a
//! decimal number as a number.

use crate::schema::section_entries;
use crate::text::{begins_with, chars_of, continues_with, integer, lower, lowercase};
use crate::text::{parse_integer, same_text};
use crate::tree::{duplicate_entries, entries_view, lemma_upsert, lemma_upsert_wf, lookup};
use crate::tree::{position, put, upsert, Entry, Node, Tree};
use vstd::prelude::*;
use vstd::string::StrSliceExecFns;

verus! {

/// The key that a variable sets: the rest of its lower-cased name after
/// the prefix, when the name has the prefix and a rest.
pub open spec fn env_key(name: Seq<char>) -> Option<Seq<char>> {
    let prefix = "fireblocks_"@;
    if begins_with(lower(name), prefix) && lower(name).len() > prefix.len() {
        Some(lower(name).skip(prefix.len() as int))
    } else {
        None
    }
}

/// Whether `key` names a field of a table by beginning with `lead`, the
/// name of the table and an underscore.
pub open spec fn leads(key: Seq<char>, lead: Seq<char>) -> bool {
    begins_with(key, lead) && key.len() > lead.len()
}

/// The table that a key goes into; the root when there is none.
pub open spec fn env_table(key: Seq<char>) -> Option<Seq<char>> {
    if leads(key, "signer_"@) {
        Some("signer"@)
    } else if leads(key, "display_"@) {
        Some("display"@)
    } else if leads(key, "extra_"@) {
        Some("extra"@)
    } else {
        None
    }
}

/// The field that a key names within its table.
pub open spec fn env_field(key: Seq<char>) -> Seq<char> {
    if leads(key, "signer_"@) {
        key.skip("signer_"@.len() as int)
    } else if leads(key, "display_"@) {
        key.skip("display_"@.len() as int)
    } else if leads(key, "extra_"@) {
        key.skip("extra_"@.len() as int)
    } else {
        key
    }
}

/// Whether the schema declares the field that a key names as text.
pub open spec fn keeps_text(key: Seq<char>) -> bool {
    if leads(key, "signer_"@) {
        env_field(key) == "vault"@
    } else if leads(key, "display_"@) {
        env_field(key) == "output"@
    } else if leads(key, "extra_"@) {
        false
    } else {
        key == "api_key"@ || key == "url"@ || key == "secret"@ || key == "secret_path"@
    }
}

/// What a variable's value is when it is read by its shape: a flag for
/// `true` and `false` in any case, a number for a decimal number within
/// the signed 64-bit range, else the text itself.
pub open spec fn shaped(raw: Seq<char>) -> Tree {
    if lower(raw) == "true"@ {
        Tree::Bool(true)
    } else if lower(raw) == "false"@ {
        Tree::Bool(false)
    } else {
        match integer(raw) {
            Some(n) => Tree::Int(n),
            None => Tree::Str(raw),
        }
    }
}

/// The value that a variable gives to the field its key names.
pub open spec fn env_value(key: Seq<char>, raw: Seq<char>) -> Tree {
    if keeps_text(key) {
        Tree::Str(raw)
    } else {
        shaped(raw)
    }
}

/// `layer` with `value` stored where `key` points.
pub open spec fn placed(layer: Seq<(Seq<char>, Tree)>, key: Seq<char>, value: Tree) -> Seq<
    (Seq<char>, Tree),
> {
    match env_table(key) {
        None => upsert(layer, key, value),
        Some(table) => upsert(
            layer,
            table,
            Tree::Table(upsert(section_entries(layer, table), env_field(key), value)),
        ),
    }
}

/// The layer after the first `n` variables were applied, in order; a
/// later variable overrides an earlier one with the same key.
pub open spec fn env_entries(env: Seq<(Seq<char>, Seq<char>)>, n: int) -> Seq<(Seq<char>, Tree)>
    decreases n,
{
    if n <= 0 || n > env.len() {
        Seq::empty()
    } else {
        let before = env_entries(env, n - 1);
        match env_key(env[n - 1].0) {
            None => before,
            Some(key) => placed(before, key, env_value(key, env[n - 1].1)),
        }
    }
}

/// The layer of a whole environment, as a table.
pub open spec fn env_tree(env: Seq<(Seq<char>, Seq<char>)>) -> Tree {
    Tree::Table(env_entries(env, env.len() as int))
}

/// The content of a list of variables.
pub open spec fn env_view(env: Seq<(String, String)>) -> Seq<(Seq<char>, Seq<char>)> {
    Seq::new(env.len(), |i: int| (env[i].0@, env[i].1@))
}

/// The key that the variable `name` sets, if it sets one.
pub fn key_of_variable(name: &str) -> (r: Option<String>)
    ensures
        match r {
            Some(key) => env_key(name@) == Some(key@),
            None => env_key(name@) is None,
        },
{
    let lowered = lowercase(name);
    let chars = chars_of(lowered.as_str());
    let prefix = chars_of("fireblocks_");
    assert(chars@.skip(0) =~= chars@);
    if continues_with(&chars, 0, &prefix) && chars.len() > prefix.len() {
        let rest = lowered.as_str().substring_char(prefix.len(), chars.len());
        assert(lowered@.subrange(prefix.len() as int, chars.len() as int) =~= lowered@.skip(
            prefix.len() as int,
        ));
        Some(rest.to_owned())
    } else {
        None
    }
}

/// Whether `key` begins with `lead` and goes on after it.
fn is_led_by(key: &Vec<char>, lead: &str) -> (r: bool)
    ensures
        r == leads(key@, lead@),
{
    let prefix = chars_of(lead);
    assert(key@.skip(0) =~= key@);
    continues_with(key, 0, &prefix) && key.len() > prefix.len()
}

/// `key` without its first `lead` characters.
fn after_lead(key: &str, lead: &str) -> (r: String)
    requires
        leads(key@, lead@),
    ensures
        r@ == key@.skip(lead@.len() as int),
{
    let total = key.unicode_len();
    let cut = lead.unicode_len();
    let rest = key.substring_char(cut, total);
    assert(key@.subrange(cut as int, total as int) =~= key@.skip(cut as int));
    rest.to_owned()
}

/// Reads a variable's value by its shape.
pub fn shape(raw: &str) -> (r: Node)
    ensures
        r@ == shaped(raw@),
{
    let lowered = lowercase(raw);
    if same_text(lowered.as_str(), "true") {
        Node::Bool(true)
    } else if same_text(lowered.as_str(), "false") {
        Node::Bool(false)
    } else {
        match parse_integer(raw) {
            Some(n) => Node::Int(n as i128),
            None => Node::Str(raw.to_owned()),
        }
    }
}

/// Stores the value of a variable in the table that its key names.
fn place_in(layer: Vec<Entry>, table: &str, field: String, value: Node) -> (r: Vec<Entry>)
    ensures
        entries_view(r@) == upsert(
            entries_view(layer@),
            table@,
            Tree::Table(upsert(section_entries(entries_view(layer@), table@), field@, value@)),
        ),
{
    let at = position(&layer, table);
    let inner: Vec<Entry> = if at < layer.len() {
        match &layer[at].value {
            Node::Table(entries) => duplicate_entries(entries),
            _ => Vec::new(),
        }
    } else {
        Vec::new()
    };
    assert(entries_view(inner@) =~= section_entries(entries_view(layer@), table@));
    let inner = put(inner, field, value);
    put(layer, table.to_owned(), Node::Table(inner))
}

/// Stores the value `raw` of a variable where its key points.
pub fn place(layer: Vec<Entry>, key: &str, raw: &str) -> (r: Vec<Entry>)
    ensures
        entries_view(r@) == placed(entries_view(layer@), key@, env_value(key@, raw@)),
{
    let chars = chars_of(key);
    if is_led_by(&chars, "signer_") {
        let field = after_lead(key, "signer_");
        let value = if same_text(field.as_str(), "vault") {
            Node::Str(raw.to_owned())
        } else {
            shape(raw)
        };
        place_in(layer, "signer", field, value)
    } else if is_led_by(&chars, "display_") {
        let field = after_lead(key, "display_");
        let value = if same_text(field.as_str(), "output") {
            Node::Str(raw.to_owned())
        } else {
            shape(raw)
        };
        place_in(layer, "display", field, value)
    } else if is_led_by(&chars, "extra_") {
        let field = after_lead(key, "extra_");
        place_in(layer, "extra", field, shape(raw))
    } else {
        let value = if same_text(key, "api_key") || same_text(key, "url") || same_text(
            key,
            "secret",
        ) || same_text(key, "secret_path") {
            Node::Str(raw.to_owned())
        } else {
            shape(raw)
        };
        put(layer, key.to_owned(), value)
    }
}

/// The layer that the variables of `env` contribute, applied in order.
pub fn env_layer(env: &Vec<(String, String)>) -> (r: Node)
    ensures
        r@ == env_tree(env_view(env@)),
{
    let mut layer: Vec<Entry> = Vec::new();
    assert(entries_view(layer@) =~= Seq::empty());
    let mut i: usize = 0;
    while i < env.len()
        invariant
            i <= env.len(),
            entries_view(layer@) == env_entries(env_view(env@), i as int),
        decreases env.len() - i,
    {
        match key_of_variable(env[i].0.as_str()) {
            Some(key) => {
                layer = place(layer, key.as_str(), env[i].1.as_str());
            },
            None => {},
        }
        i += 1;
    }
    Node::Table(layer)
}

/// Whether a variable is `FIREBLOCKS_SECRET`, in this or any other case.
pub open spec fn is_secret_variable(name: Seq<char>) -> bool {
    lower(name) == lower("FIREBLOCKS_SECRET"@)
}

/// The variables that set the key `secret` are `FIREBLOCKS_SECRET`, in
/// this or any other case, and no others.
pub proof fn lemma_secret_variable(name: Seq<char>)
    ensures
        env_key(name) == Some("secret"@) <==> is_secret_variable(name),
{
    reveal_strlit("FIREBLOCKS_SECRET");
    reveal_strlit("fireblocks_");
    reveal_strlit("secret");
    let wanted = lower("FIREBLOCKS_SECRET"@);
    let lowered = lower(name);
    assert(wanted.take(11) =~= "fireblocks_"@);
    assert(wanted.skip(11) =~= "secret"@);
    if env_key(name) == Some("secret"@) {
        assert(lowered.len() == 17);
        assert forall|i: int| 0 <= i < 17 implies lowered[i] == wanted[i] by {
            if i < 11 {
                assert(lowered.take(11)[i] == "fireblocks_"@[i]);
            } else {
                assert(lowered.skip(11)[i - 11] == "secret"@[i - 11]);
            }
        }
        assert(lowered =~= wanted);
    }
}

/// The layer of an environment is a well-formed table.
pub proof fn lemma_env_entries_wf(env: Seq<(Seq<char>, Seq<char>)>, n: int)
    requires
        0 <= n <= env.len(),
    ensures
        Tree::Table(env_entries(env, n)).wf(),
    decreases n,
{
    if n > 0 {
        lemma_env_entries_wf(env, n - 1);
        let before = env_entries(env, n - 1);
        match env_key(env[n - 1].0) {
            None => {},
            Some(key) => {
                let value = env_value(key, env[n - 1].1);
                match env_table(key) {
                    None => {
                        lemma_upsert_wf(before, key, value);
                    },
                    Some(table) => {
                        let inner = section_entries(before, table);
                        crate::tree::lemma_first_index(before, table, 0);
                        assert(Tree::Table(inner).wf()) by {
                            let at = crate::tree::first_index(before, table, 0);
                            if at < before.len() {
                                assert(before[at].1.wf());
                            }
                        }
                        lemma_upsert_wf(inner, env_field(key), value);
                        lemma_upsert_wf(
                            before,
                            table,
                            Tree::Table(upsert(inner, env_field(key), value)),
                        );
                    },
                }
            },
        }
    }
}

/// Whether `key` is the name of one of the tables that variables can
/// reach into.
pub open spec fn is_table_name(key: Seq<char>) -> bool {
    key == "signer"@ || key == "display"@ || key == "extra"@
}

/// The value of a variable is never a table.
pub proof fn lemma_env_value_plain(key: Seq<char>, raw: Seq<char>)
    ensures
        !(env_value(key, raw) is Table),
        env_value(key, raw).wf(),
{
}

/// A variable that sets a key of the root decides what the layer holds
/// under that key, unless a later variable sets the same key.
pub proof fn lemma_env_root_key(env: Seq<(Seq<char>, Seq<char>)>, i: int, n: int, key: Seq<char>)
    requires
        0 <= i < n <= env.len(),
        env_key(env[i].0) == Some(key),
        env_table(key) is None,
        !is_table_name(key),
        forall|j: int| i < j < n ==> env_key(#[trigger] env[j].0) != Some(key),
    ensures
        lookup(env_entries(env, n), key) == Some(env_value(key, env[i].1)),
    decreases n,
{
    let before = env_entries(env, n - 1);
    if n == i + 1 {
        lemma_upsert(before, key, env_value(key, env[i].1), key);
    } else {
        lemma_env_root_key(env, i, n - 1, key);
        assert(env_key(env[n - 1].0) != Some(key));
        match env_key(env[n - 1].0) {
            None => {},
            Some(other) => {
                let value = env_value(other, env[n - 1].1);
                match env_table(other) {
                    None => {
                        lemma_upsert(before, other, value, key);
                    },
                    Some(table) => {
                        lemma_upsert(
                            before,
                            table,
                            Tree::Table(
                                upsert(section_entries(before, table), env_field(other), value),
                            ),
                            key,
                        );
                    },
                }
            },
        }
    }
}

/// The key `secret` is a key of the root, and a field kept as text.
pub proof fn lemma_secret_key()
    ensures
        env_table("secret"@) is None,
        !is_table_name("secret"@),
        forall|raw: Seq<char>| #[trigger] env_value("secret"@, raw) == Tree::Str(raw),
{
    reveal_strlit("secret");
    reveal_strlit("signer_");
    reveal_strlit("display_");
    reveal_strlit("extra_");
    reveal_strlit("signer");
    reveal_strlit("display");
    reveal_strlit("extra");
    let key = "secret"@;
    assert(!begins_with(key, "extra_"@)) by {
        if begins_with(key, "extra_"@) {
            assert(key.take(6)[0] == "extra_"@[0]);
        }
    }
    assert("signer"@[1] != key[1]);
    assert("display"@[0] != key[0]);
    assert("extra"@[0] != key[0]);
}

} // verus!
