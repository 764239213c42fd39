//! Loosely typed configuration values and the layering rule between them.

use crate::text::same_text;
use vstd::prelude::*;

verus! {

/// The mathematical content of a configuration value.
///
/// A table is an association list in document order; a well-formed table
/// holds each key once.
pub enum Tree {
    Nil,
    Bool(bool),
    Int(int),
    Float(u64),
    Str(Seq<char>),
    Array(Seq<Tree>),
    Table(Seq<(Seq<char>, Tree)>),
}

/// One key of a table together with the value stored under it.
#[derive(Debug, PartialEq, Eq)]
pub struct Entry {
    pub key: String,
    pub value: Node,
}

/// A configuration value as it is held in memory.
#[derive(Debug, PartialEq, Eq)]
pub enum Node {
    Nil,
    Bool(bool),
    /// A whole number.
    Int(i128),
    /// A whole number that was given without a sign.
    Unsigned(u128),
    /// A floating-point number, as the IEEE-754 bit pattern of a double.
    Float(u64),
    Str(String),
    Array(Vec<Node>),
    /// A table, as its entries in document order.
    Table(Vec<Entry>),
}

impl Clone for Entry {
    fn clone(&self) -> (r: Self)
        ensures
            r.key@ == self.key@,
            r.value@ == self.value@,
    {
        Entry { key: self.key.clone(), value: self.value.duplicate() }
    }
}

impl Clone for Node {
    fn clone(&self) -> (r: Self)
        ensures
            r@ == self@,
    {
        self.duplicate()
    }
}

impl View for Node {
    type V = Tree;

    open spec fn view(&self) -> Tree
        decreases self,
    {
        match self {
            Node::Nil => Tree::Nil,
            Node::Bool(b) => Tree::Bool(*b),
            Node::Int(i) => Tree::Int(*i as int),
            Node::Unsigned(u) => Tree::Int(*u as int),
            Node::Float(bits) => Tree::Float(*bits),
            Node::Str(s) => Tree::Str(s@),
            Node::Array(items) => Tree::Array(items_view(items@)),
            Node::Table(entries) => Tree::Table(entries_view(entries@)),
        }
    }
}

/// The content of a list of values.
pub open spec fn items_view(items: Seq<Node>) -> Seq<Tree>
    decreases items,
{
    Seq::new(
        items.len(),
        |i: int|
            if 0 <= i < items.len() {
                items[i]@
            } else {
                Tree::Nil
            },
    )
}

/// The content of a list of entries.
pub open spec fn entries_view(entries: Seq<Entry>) -> Seq<(Seq<char>, Tree)>
    decreases entries,
{
    Seq::new(
        entries.len(),
        |i: int|
            if 0 <= i < entries.len() {
                (entries[i].key@, entries[i].value@)
            } else {
                (Seq::empty(), Tree::Nil)
            },
    )
}

/// The index of the first entry at or after `from` that is stored under
/// `key`, or the length of `entries` when there is none.
pub open spec fn first_index(entries: Seq<(Seq<char>, Tree)>, key: Seq<char>, from: int) -> int
    decreases entries.len() - from,
{
    if from >= entries.len() {
        entries.len() as int
    } else if from >= 0 && entries[from].0 == key {
        from
    } else {
        first_index(entries, key, from + 1)
    }
}

/// The value that `entries` stores under `key`: that of the first entry
/// with this key.
pub open spec fn lookup(entries: Seq<(Seq<char>, Tree)>, key: Seq<char>) -> Option<Tree> {
    let i = first_index(entries, key, 0);
    if i < entries.len() {
        Some(entries[i].1)
    } else {
        None
    }
}

/// `entries` with `value` stored under `key`: in place where the key is
/// present, at the end where it is not.
pub open spec fn upsert(entries: Seq<(Seq<char>, Tree)>, key: Seq<char>, value: Tree) -> Seq<
    (Seq<char>, Tree),
> {
    let i = first_index(entries, key, 0);
    if i < entries.len() {
        entries.update(i, (key, value))
    } else {
        entries.push((key, value))
    }
}

/// No key occurs twice in `entries`.
pub open spec fn unique_keys(entries: Seq<(Seq<char>, Tree)>) -> bool {
    forall|i: int, j: int|
        0 <= i < j < entries.len() ==> (#[trigger] entries[i]).0 != (#[trigger] entries[j]).0
}

impl Tree {
    /// Every table of the tree, at any depth, holds each key once.
    pub open spec fn wf(self) -> bool
        decreases self,
    {
        match self {
            Tree::Array(items) => forall|i: int|
                0 <= i < items.len() ==> (#[trigger] items[i]).wf(),
            Tree::Table(entries) => {
                &&& unique_keys(entries)
                &&& forall|i: int| 0 <= i < entries.len() ==> (#[trigger] entries[i]).1.wf()
            },
            _ => true,
        }
    }

    /// The value stored under `key`, when the tree is a table that has it.
    pub open spec fn get(self, key: Seq<char>) -> Option<Tree> {
        match self {
            Tree::Table(entries) => lookup(entries, key),
            _ => None,
        }
    }

    /// Whether the tree is a table that has `key`.
    pub open spec fn has(self, key: Seq<char>) -> bool {
        self.get(key) is Some
    }

    /// The text of a text value.
    pub open spec fn as_text(self) -> Option<Seq<char>> {
        match self {
            Tree::Str(s) => Some(s),
            _ => None,
        }
    }

    /// The truth value of a flag.
    pub open spec fn as_flag(self) -> Option<bool> {
        match self {
            Tree::Bool(b) => Some(b),
            _ => None,
        }
    }

    /// The number of a whole number within the signed 64-bit range.
    pub open spec fn as_signed(self) -> Option<i64> {
        match self {
            Tree::Int(i) => if i64::MIN <= i <= i64::MAX {
                Some(i as i64)
            } else {
                None
            },
            _ => None,
        }
    }

    /// The number of a whole number within the unsigned 64-bit range.
    pub open spec fn as_count(self) -> Option<u64> {
        match self {
            Tree::Int(i) => if 0 <= i <= u64::MAX {
                Some(i as u64)
            } else {
                None
            },
            _ => None,
        }
    }
}

/// What layering `over` on top of `base` gives: two tables merge key by
/// key, anything else is replaced by `over`.
pub open spec fn overlay(base: Tree, over: Tree) -> Tree
    decreases over, 0int,
{
    match (base, over) {
        (Tree::Table(b), Tree::Table(o)) => Tree::Table(overlay_entries(b, o, o.len() as int)),
        _ => over,
    }
}

/// `base` after the first `n` entries of `over` have been layered on it, in
/// order.
pub open spec fn overlay_entries(
    base: Seq<(Seq<char>, Tree)>,
    over: Seq<(Seq<char>, Tree)>,
    n: int,
) -> Seq<(Seq<char>, Tree)>
    decreases over, n,
{
    if n <= 0 || n > over.len() {
        base
    } else {
        let acc = overlay_entries(base, over, n - 1);
        let key = over[n - 1].0;
        upsert(acc, key, layered(lookup(acc, key), over[n - 1].1))
    }
}

/// The value a key gets when `over` is layered on what was there before.
pub open spec fn layered(before: Option<Tree>, over: Tree) -> Tree
    decreases over, 1int,
{
    match before {
        Some(old) => overlay(old, over),
        None => over,
    }
}

/// Where `key` is stored in `entries`: the index of its first entry, or the
/// length when it is absent.
pub fn position(entries: &Vec<Entry>, key: &str) -> (r: usize)
    ensures
        r == first_index(entries_view(entries@), key@, 0),
        r <= entries.len(),
{
    let mut i: usize = 0;
    while i < entries.len()
        invariant
            i <= entries.len(),
            forall|j: int| 0 <= j < i ==> (#[trigger] entries_view(entries@)[j]).0 != key@,
        decreases entries.len() - i,
    {
        if same_text(entries[i].key.as_str(), key) {
            proof {
                lemma_first_index_at(entries_view(entries@), key@, 0, i as int);
            }
            return i;
        }
        i += 1;
    }
    proof {
        lemma_first_index_at(entries_view(entries@), key@, 0, i as int);
    }
    i
}

/// Stores `value` under `key`: in place where the key is present, at the
/// end where it is not.
pub fn put(entries: Vec<Entry>, key: String, value: Node) -> (r: Vec<Entry>)
    ensures
        entries_view(r@) == upsert(entries_view(entries@), key@, value@),
{
    let mut out = entries;
    let at = position(&out, key.as_str());
    if at < out.len() {
        out.set(at, Entry { key, value });
    } else {
        out.push(Entry { key, value });
    }
    assert(entries_view(out@) =~= upsert(entries_view(entries@), key@, value@));
    out
}

/// A copy of `entries` with the same content.
pub fn duplicate_entries(entries: &Vec<Entry>) -> (r: Vec<Entry>)
    ensures
        entries_view(r@) == entries_view(entries@),
    decreases entries,
{
    let mut out: Vec<Entry> = Vec::new();
    let mut i: usize = 0;
    while i < entries.len()
        invariant
            i <= entries.len(),
            out.len() == i,
            forall|j: int|
                0 <= j < i ==> (#[trigger] out@[j]).key@ == entries@[j].key@ && out@[j].value@
                    == entries@[j].value@,
        decreases entries.len() - i,
    {
        let value = entries[i].value.duplicate();
        out.push(Entry { key: entries[i].key.clone(), value });
        i += 1;
    }
    assert(entries_view(out@) =~= entries_view(entries@));
    out
}

/// A copy of `items` with the same content.
pub fn duplicate_items(items: &Vec<Node>) -> (r: Vec<Node>)
    ensures
        items_view(r@) == items_view(items@),
    decreases items,
{
    let mut out: Vec<Node> = Vec::new();
    let mut i: usize = 0;
    while i < items.len()
        invariant
            i <= items.len(),
            out.len() == i,
            forall|j: int| 0 <= j < i ==> (#[trigger] out@[j])@ == items@[j]@,
        decreases items.len() - i,
    {
        let item = items[i].duplicate();
        out.push(item);
        i += 1;
    }
    assert(items_view(out@) =~= items_view(items@));
    out
}

/// The entries of `base` with those of `over` layered on them, in order.
pub fn overlay_tables(base: &Vec<Entry>, over: &Vec<Entry>) -> (r: Vec<Entry>)
    ensures
        entries_view(r@) == overlay_entries(
            entries_view(base@),
            entries_view(over@),
            over.len() as int,
        ),
    decreases over,
{
    let mut acc = duplicate_entries(base);
    let mut i: usize = 0;
    while i < over.len()
        invariant
            i <= over.len(),
            entries_view(acc@) == overlay_entries(
                entries_view(base@),
                entries_view(over@),
                i as int,
            ),
        decreases over.len() - i,
    {
        let entry = &over[i];
        let at = position(&acc, entry.key.as_str());
        let ghost before = entries_view(acc@);
        if at < acc.len() {
            let merged = acc[at].value.overlay(&entry.value);
            acc.set(at, Entry { key: entry.key.clone(), value: merged });
        } else {
            let value = entry.value.duplicate();
            acc.push(Entry { key: entry.key.clone(), value });
        }
        assert(entries_view(acc@) =~= upsert(
            before,
            entry.key@,
            layered(lookup(before, entry.key@), entry.value@),
        ));
        i += 1;
    }
    acc
}

impl Node {
    /// A copy of the value with the same content.
    pub fn duplicate(&self) -> (r: Node)
        ensures
            r@ == self@,
        decreases self,
    {
        match self {
            Node::Nil => Node::Nil,
            Node::Bool(b) => Node::Bool(*b),
            Node::Int(i) => Node::Int(*i),
            Node::Unsigned(u) => Node::Unsigned(*u),
            Node::Float(bits) => Node::Float(*bits),
            Node::Str(s) => Node::Str(s.clone()),
            Node::Array(items) => Node::Array(duplicate_items(items)),
            Node::Table(entries) => Node::Table(duplicate_entries(entries)),
        }
    }

    /// The value stored under `key`, when this is a table that has the key.
    pub fn get(&self, key: &str) -> (r: Option<&Node>)
        ensures
            match r {
                Some(v) => self@.get(key@) == Some(v@),
                None => self@.get(key@) is None,
            },
    {
        match self {
            Node::Table(entries) => {
                let at = position(entries, key);
                if at < entries.len() {
                    Some(&entries[at].value)
                } else {
                    None
                }
            },
            _ => None,
        }
    }

    /// The text of a text value; nothing for a value of another kind.
    pub fn as_text(&self) -> (r: Option<&String>)
        ensures
            match r {
                Some(s) => self@.as_text() == Some(s@),
                None => self@.as_text() is None,
            },
    {
        match self {
            Node::Str(s) => Some(s),
            _ => None,
        }
    }

    /// The truth value of a flag; nothing for a value of another kind.
    pub fn as_flag(&self) -> (r: Option<bool>)
        ensures
            r == self@.as_flag(),
    {
        match self {
            Node::Bool(b) => Some(*b),
            _ => None,
        }
    }

    /// The number of a whole number within the signed 64-bit range;
    /// nothing for a number outside it or a value of another kind.
    pub fn as_signed(&self) -> (r: Option<i64>)
        ensures
            r == self@.as_signed(),
    {
        match self {
            Node::Int(i) => if -0x8000_0000_0000_0000 <= *i && *i <= 0x7fff_ffff_ffff_ffff {
                Some(*i as i64)
            } else {
                None
            },
            Node::Unsigned(u) => if *u <= 0x7fff_ffff_ffff_ffff {
                Some(*u as i64)
            } else {
                None
            },
            _ => None,
        }
    }

    /// The number of a whole number within the unsigned 64-bit range;
    /// nothing for a number outside it or a value of another kind.
    pub fn as_count(&self) -> (r: Option<u64>)
        ensures
            r == self@.as_count(),
    {
        match self {
            Node::Int(i) => if 0 <= *i && *i <= 0xffff_ffff_ffff_ffff {
                Some(*i as u64)
            } else {
                None
            },
            Node::Unsigned(u) => if *u <= 0xffff_ffff_ffff_ffff {
                Some(*u as u64)
            } else {
                None
            },
            _ => None,
        }
    }

    /// Whether this is a table that has `key`.
    pub fn has(&self, key: &str) -> (r: bool)
        ensures
            r == self@.has(key@),
    {
        self.get(key).is_some()
    }

    /// This value with `over` layered on top of it.
    pub fn overlay(&self, over: &Node) -> (r: Node)
        ensures
            r@ == overlay(self@, over@),
        decreases over,
    {
        match (self, over) {
            (Node::Table(b), Node::Table(o)) => Node::Table(overlay_tables(b, o)),
            _ => over.duplicate(),
        }
    }
}

/// `first_index` lies between `from` and the length, skips only entries
/// with another key, and stops on an entry with `key`.
pub proof fn lemma_first_index(entries: Seq<(Seq<char>, Tree)>, key: Seq<char>, from: int)
    requires
        0 <= from <= entries.len(),
    ensures
        from <= first_index(entries, key, from) <= entries.len(),
        forall|j: int|
            from <= j < first_index(entries, key, from) ==> (#[trigger] entries[j]).0 != key,
        first_index(entries, key, from) < entries.len() ==> entries[first_index(
            entries,
            key,
            from,
        )].0 == key,
    decreases entries.len() - from,
{
    if from < entries.len() && entries[from].0 != key {
        lemma_first_index(entries, key, from + 1);
    }
}

/// An index that skips only entries with another key and stops on `key`
/// or at the end is the first index.
pub proof fn lemma_first_index_at(
    entries: Seq<(Seq<char>, Tree)>,
    key: Seq<char>,
    from: int,
    at: int,
)
    requires
        0 <= from <= at <= entries.len(),
        forall|j: int| from <= j < at ==> (#[trigger] entries[j]).0 != key,
        at < entries.len() ==> entries[at].0 == key,
    ensures
        first_index(entries, key, from) == at,
    decreases at - from,
{
    if from < at {
        assert(entries[from].0 != key);
        lemma_first_index_at(entries, key, from + 1, at);
    }
}

/// After `upsert` the key holds the new value, every other key holds what
/// it held before, and keys that were unique stay unique.
pub proof fn lemma_upsert(
    entries: Seq<(Seq<char>, Tree)>,
    key: Seq<char>,
    value: Tree,
    other: Seq<char>,
)
    ensures
        lookup(upsert(entries, key, value), key) == Some(value),
        other != key ==> lookup(upsert(entries, key, value), other) == lookup(entries, other),
        unique_keys(entries) ==> unique_keys(upsert(entries, key, value)),
{
    let i = first_index(entries, key, 0);
    let u = upsert(entries, key, value);
    lemma_first_index(entries, key, 0);
    assert forall|j: int| 0 <= j < i implies (#[trigger] u[j]).0 != key by {
        assert(entries[j].0 != key);
    }
    lemma_first_index_at(u, key, 0, i);
    if other != key {
        let j = first_index(entries, other, 0);
        lemma_first_index(entries, other, 0);
        assert forall|k: int| 0 <= k < j implies (#[trigger] u[k]).0 != other by {
            assert(entries[k].0 != other);
        }
        if j < entries.len() {
            lemma_first_index_at(u, other, 0, j);
        } else {
            assert forall|k: int| 0 <= k < u.len() implies (#[trigger] u[k]).0 != other by {
                if k < entries.len() {
                    assert(entries[k].0 != other);
                }
            }
            lemma_first_index_at(u, other, 0, u.len() as int);
        }
    }
    if unique_keys(entries) {
        assert forall|a: int, b: int| 0 <= a < b < u.len() implies (#[trigger] u[a]).0 != (
        #[trigger] u[b]).0 by {
            if i < entries.len() {
                assert(entries[a].0 != entries[b].0);
            } else if b < entries.len() {
                assert(entries[a].0 != entries[b].0);
            } else {
                assert(entries[a].0 != key);
            }
        }
    }
}

/// Storing a well-formed value in a well-formed table leaves it well
/// formed.
pub proof fn lemma_upsert_wf(entries: Seq<(Seq<char>, Tree)>, key: Seq<char>, value: Tree)
    requires
        Tree::Table(entries).wf(),
        value.wf(),
    ensures
        Tree::Table(upsert(entries, key, value)).wf(),
{
    let i = first_index(entries, key, 0);
    let u = upsert(entries, key, value);
    lemma_first_index(entries, key, 0);
    lemma_upsert(entries, key, value, key);
    assert forall|a: int| 0 <= a < u.len() implies (#[trigger] u[a]).1.wf() by {
        if a != i {
            assert(entries[a].1.wf());
        }
    }
}

/// What a key holds after the first `n` entries of `over` were layered on
/// `base`.
pub proof fn lemma_overlay_entries(
    base: Seq<(Seq<char>, Tree)>,
    over: Seq<(Seq<char>, Tree)>,
    n: int,
    key: Seq<char>,
)
    requires
        unique_keys(over),
        0 <= n <= over.len(),
    ensures
        first_index(over, key, 0) < n ==> lookup(overlay_entries(base, over, n), key) == Some(
            layered(lookup(base, key), over[first_index(over, key, 0)].1),
        ),
        first_index(over, key, 0) >= n ==> lookup(overlay_entries(base, over, n), key) == lookup(
            base,
            key,
        ),
    decreases n,
{
    if n > 0 {
        let acc = overlay_entries(base, over, n - 1);
        let k = over[n - 1].0;
        let j = first_index(over, key, 0);
        lemma_overlay_entries(base, over, n - 1, key);
        lemma_first_index(over, key, 0);
        lemma_upsert(acc, k, layered(lookup(acc, k), over[n - 1].1), key);
        if k == key {
            if j < n - 1 {
                assert(over[j].0 != over[n - 1].0);
            }
            if j > n - 1 {
                assert(over[n - 1].0 != key);
            }
            assert(j == n - 1);
        } else {
            assert(j != n - 1);
        }
    } else {
        lemma_first_index(over, key, 0);
    }
}

/// Layering keeps the entries of well-formed tables well formed.
pub proof fn lemma_overlay_entries_wf(
    base: Seq<(Seq<char>, Tree)>,
    over: Seq<(Seq<char>, Tree)>,
    n: int,
)
    requires
        Tree::Table(base).wf(),
        Tree::Table(over).wf(),
        0 <= n <= over.len(),
    ensures
        Tree::Table(overlay_entries(base, over, n)).wf(),
    decreases over, n,
{
    if n > 0 {
        let acc = overlay_entries(base, over, n - 1);
        let k = over[n - 1].0;
        let v = layered(lookup(acc, k), over[n - 1].1);
        lemma_overlay_entries_wf(base, over, n - 1);
        let i = first_index(acc, k, 0);
        lemma_first_index(acc, k, 0);
        lemma_upsert(acc, k, v, k);
        assert(over[n - 1].1.wf());
        if i < acc.len() {
            assert(acc[i].1.wf());
            lemma_overlay_wf(acc[i].1, over[n - 1].1);
        }
        let u = upsert(acc, k, v);
        assert forall|a: int| 0 <= a < u.len() implies (#[trigger] u[a]).1.wf() by {
            if a != i {
                assert(acc[a].1.wf());
            }
        }
    }
}

/// Layering two well-formed values gives a well-formed value.
pub proof fn lemma_overlay_wf(base: Tree, over: Tree)
    requires
        base.wf(),
        over.wf(),
    ensures
        overlay(base, over).wf(),
    decreases over, 0int,
{
    match (base, over) {
        (Tree::Table(b), Tree::Table(o)) => {
            lemma_overlay_entries_wf(b, o, o.len() as int);
        },
        _ => {},
    }
}

/// The layering law. When a well-formed table `over` is layered on a table
/// `base`, a key that only `over` holds takes the value of `over`; a key
/// that both hold takes the value of `over` layered on that of `base`,
/// which is the value of `over` itself unless both are tables; a key that
/// only `base` holds keeps the value of `base`; and a key that neither
/// holds is absent.
pub proof fn overlay_law(base: Tree, over: Tree, key: Seq<char>)
    requires
        base is Table,
        over is Table,
        over.wf(),
    ensures
        overlay(base, over).get(key) == (match (base.get(key), over.get(key)) {
            (before, None) => before,
            (None, Some(v)) => Some(v),
            (Some(b), Some(v)) => Some(overlay(b, v)),
        }),
        forall|b: Tree, v: Tree| !(b is Table && v is Table) ==> #[trigger] overlay(b, v) == v,
{
    let b = base->Table_0;
    let o = over->Table_0;
    lemma_first_index(o, key, 0);
    lemma_overlay_entries(b, o, o.len() as int, key);
}

} // verus!
