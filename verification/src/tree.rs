//! The generic tree that both encodings are read into.

use vstd::prelude::*;

verus! {

/// A number of the generic tree.
///
/// `Float` holds the IEEE 754 bit pattern of a double-precision number.
#[derive(Clone, Copy, Debug, PartialEq, Eq)]
pub enum Number {
    PosInt(u64),
    NegInt(i64),
    Float(u64),
}

/// A node of the generic tree.
///
/// An object keeps its entries in the order in which they were read.
#[derive(Debug, PartialEq)]
pub enum Node {
    Null,
    Boolean(bool),
    Number(Number),
    Text(String),
    Array(Vec<Node>),
    Object(Vec<(String, Node)>),
}

/// The mathematical model of a [`Node`].
pub enum Tree {
    Null,
    Boolean(bool),
    Number(Number),
    Text(Seq<char>),
    Array(Seq<Tree>),
    Object(Seq<(Seq<char>, Tree)>),
}

/// The models of a list of nodes, in order.
pub open spec fn items_view(items: Seq<Node>) -> Seq<Tree>
    decreases items,
{
    Seq::new(
        items.len(),
        |i: int|
            if 0 <= i < items.len() {
                items[i].view()
            } else {
                Tree::Null
            },
    )
}

/// The models of the entries of an object, in order.
pub open spec fn entries_view(entries: Seq<(String, Node)>) -> Seq<(Seq<char>, Tree)>
    decreases entries,
{
    Seq::new(
        entries.len(),
        |i: int|
            if 0 <= i < entries.len() {
                (entries[i].0@, entries[i].1.view())
            } else {
                (Seq::empty(), Tree::Null)
            },
    )
}

impl View for Node {
    type V = Tree;

    open spec fn view(&self) -> Tree
        decreases self,
    {
        match self {
            Node::Null => Tree::Null,
            Node::Boolean(b) => Tree::Boolean(*b),
            Node::Number(n) => Tree::Number(*n),
            Node::Text(s) => Tree::Text(s@),
            Node::Array(items) => Tree::Array(items_view(items@)),
            Node::Object(entries) => Tree::Object(entries_view(entries@)),
        }
    }
}

/// The index of the last entry under `key`, or `-1` where there is none.
pub open spec fn last_index<V>(entries: Seq<(Seq<char>, V)>, key: Seq<char>) -> int
    decreases entries.len(),
{
    if entries.len() == 0 {
        -1
    } else if entries.last().0 == key {
        entries.len() - 1
    } else {
        last_index(entries.drop_last(), key)
    }
}

/// The value under `key`: that of the last entry with this key.
pub open spec fn lookup<V>(entries: Seq<(Seq<char>, V)>, key: Seq<char>) -> Option<V> {
    let i = last_index(entries, key);
    if i >= 0 {
        Some(entries[i].1)
    } else {
        None
    }
}

/// No key occurs twice among `entries`.
pub open spec fn distinct_keys<V>(entries: Seq<(Seq<char>, V)>) -> bool {
    forall|i: int, j: int|
        0 <= i < j < entries.len() ==> (#[trigger] entries[i]).0 != (#[trigger] entries[j]).0
}

impl Tree {
    /// Every object in the tree has distinct keys.
    pub open spec fn well_formed(self) -> bool
        decreases self,
    {
        match self {
            Tree::Array(items) => forall|i: int|
                0 <= i < items.len() ==> (#[trigger] items[i]).well_formed(),
            Tree::Object(entries) => distinct_keys(entries) && forall|i: int|
                0 <= i < entries.len() ==> (#[trigger] entries[i]).1.well_formed(),
            _ => true,
        }
    }
}

/// `last_index` is `-1` or the index of an entry under `key` that no later
/// entry shares its key with.
pub proof fn lemma_last_index<V>(entries: Seq<(Seq<char>, V)>, key: Seq<char>)
    ensures
        -1 <= last_index(entries, key) < entries.len(),
        last_index(entries, key) >= 0 ==> entries[last_index(entries, key)].0 == key,
        forall|j: int|
            last_index(entries, key) < j < entries.len() ==> (#[trigger] entries[j]).0 != key,
    decreases entries.len(),
{
    if entries.len() > 0 && entries.last().0 != key {
        let front = entries.drop_last();
        lemma_last_index(front, key);
        assert forall|j: int| last_index(entries, key) < j < entries.len() implies (
        #[trigger] entries[j]).0 != key by {
            if j < front.len() {
                assert(front[j] == entries[j]);
            }
        }
    }
}

/// An index that holds `key` and that no entry under `key` follows is
/// `last_index`.
pub proof fn lemma_last_index_is<V>(entries: Seq<(Seq<char>, V)>, key: Seq<char>, i: int)
    requires
        -1 <= i < entries.len(),
        i >= 0 ==> entries[i].0 == key,
        forall|j: int| i < j < entries.len() ==> (#[trigger] entries[j]).0 != key,
    ensures
        last_index(entries, key) == i,
{
    lemma_last_index(entries, key);
}

} // verus!
