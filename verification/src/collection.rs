//! The tree forms of lists and of mappings from names to values.

use vstd::prelude::*;

use crate::codec::{below, same_text, Mismatch, Wire};
use crate::tree::{
    distinct_keys, entries_view, items_view, lemma_last_index_is, lookup, Node, Tree,
};

verus! {

/// A mapping from names to values, kept as a list of entries in the order in
/// which they were read.
///
/// A lookup takes the last entry under a name; in a valid mapping no name
/// occurs twice.
#[derive(Debug, PartialEq)]
pub struct Dict<T> {
    pub entries: Vec<(String, T)>,
}

/// The models of a list of values, in order.
pub open spec fn list_model<T: Wire>(items: Seq<T>) -> Seq<T::Model> {
    Seq::new(items.len(), |i: int| items[i].model())
}

/// The models of the entries of a mapping, in order.
pub open spec fn dict_model<T: Wire>(entries: Seq<(String, T)>) -> Seq<(Seq<char>, T::Model)> {
    Seq::new(entries.len(), |i: int| (entries[i].0@, entries[i].1.model()))
}

/// Every item of a list of trees decodes.
pub open spec fn all_decode<T: Wire>(items: Seq<Tree>) -> bool {
    forall|i: int| 0 <= i < items.len() ==> (#[trigger] T::decoded(items[i])) is Some
}

/// Every value of an object decodes.
pub open spec fn all_values_decode<T: Wire>(entries: Seq<(Seq<char>, Tree)>) -> bool {
    forall|i: int| 0 <= i < entries.len() ==> (#[trigger] T::decoded(entries[i].1)) is Some
}

/// The index of the first item of a list that does not decode.
pub open spec fn first_fault<T: Wire>(items: Seq<Tree>) -> int {
    choose|i: int|
        0 <= i < items.len() && T::decoded(items[i]) is None && forall|j: int|
            0 <= j < i ==> (#[trigger] T::decoded(items[j])) is Some
}

/// The index of the first entry of an object whose value does not decode.
pub open spec fn first_fault_entry<T: Wire>(entries: Seq<(Seq<char>, Tree)>) -> int {
    choose|i: int|
        0 <= i < entries.len() && T::decoded(entries[i].1) is None && forall|j: int|
            0 <= j < i ==> (#[trigger] T::decoded(entries[j].1)) is Some
}

/// An item that does not decode, behind items that all do, is the first
/// fault of its list.
pub proof fn lemma_first_fault<T: Wire>(items: Seq<Tree>, i: int)
    requires
        0 <= i < items.len(),
        T::decoded(items[i]) is None,
        forall|j: int| 0 <= j < i ==> (#[trigger] T::decoded(items[j])) is Some,
    ensures
        first_fault::<T>(items) == i,
        !all_decode::<T>(items),
{
    let k = first_fault::<T>(items);
    if k < i {
        assert(T::decoded(items[k]) is Some);
    }
    if i < k {
        assert(T::decoded(items[i]) is Some);
    }
}

/// The same for the values of an object.
pub proof fn lemma_first_fault_entry<T: Wire>(entries: Seq<(Seq<char>, Tree)>, i: int)
    requires
        0 <= i < entries.len(),
        T::decoded(entries[i].1) is None,
        forall|j: int| 0 <= j < i ==> (#[trigger] T::decoded(entries[j].1)) is Some,
    ensures
        first_fault_entry::<T>(entries) == i,
        !all_values_decode::<T>(entries),
{
    let k = first_fault_entry::<T>(entries);
    if k < i {
        assert(T::decoded(entries[k].1) is Some);
    }
    if i < k {
        assert(T::decoded(entries[i].1) is Some);
    }
}

/// A list is an array of the tree; its items are decoded in order.
impl<T: Wire> Wire for Vec<T> {
    type Model = Seq<T::Model>;

    open spec fn model(&self) -> Seq<T::Model> {
        list_model(self@)
    }

    open spec fn decoded(tree: Tree) -> Option<Seq<T::Model>> {
        match tree {
            Tree::Array(items) => if all_decode::<T>(items) {
                Some(Seq::new(items.len(), |i: int| T::decoded(items[i])->0))
            } else {
                None
            },
            _ => None,
        }
    }

    open spec fn encoded(model: Seq<T::Model>) -> Tree {
        Tree::Array(Seq::new(model.len(), |i: int| T::encoded(model[i])))
    }

    open spec fn valid(model: Seq<T::Model>) -> bool {
        forall|i: int| 0 <= i < model.len() ==> T::valid(#[trigger] model[i])
    }

    open spec fn fault(tree: Tree) -> Seq<Seq<char>> {
        match tree {
            Tree::Array(items) => if all_decode::<T>(items) {
                Seq::empty()
            } else {
                T::fault(items[first_fault::<T>(items)])
            },
            _ => Seq::empty(),
        }
    }

    fn decode(node: &Node) -> (r: Result<Vec<T>, Mismatch>) {
        match node {
            Node::Array(items) => {
                let ghost trees = items_view(items@);
                let mut out: Vec<T> = Vec::new();
                let mut i: usize = 0;
                while i < items.len()
                    invariant
                        i <= items.len(),
                        out.len() == i,
                        trees == items_view(items@),
                        node@ == Tree::Array(trees),
                        forall|j: int|
                            0 <= j < i ==> T::decoded(trees[j]) == Some(#[trigger] out@[j].model()),
                    decreases items.len() - i,
                {
                    match T::decode(&items[i]) {
                        Ok(x) => {
                            out.push(x);
                        },
                        Err(m) => {
                            proof {
                                assert forall|j: int| 0 <= j < i implies (#[trigger] T::decoded(
                                    trees[j],
                                )) is Some by {
                                    assert(T::decoded(trees[j]) == Some(out@[j].model()));
                                }
                                lemma_first_fault::<T>(trees, i as int);
                            }
                            return Err(m);
                        },
                    }
                    i = i + 1;
                }
                assert forall|j: int| 0 <= j < trees.len() implies (#[trigger] T::decoded(
                    trees[j],
                )) is Some by {
                    assert(T::decoded(trees[j]) == Some(out@[j].model()));
                }
                assert(list_model(out@) =~= Seq::new(
                    trees.len(),
                    |i: int| T::decoded(trees[i])->0,
                ));
                Ok(out)
            },
            _ => Err(Mismatch::here()),
        }
    }

    fn encode(&self) -> (r: Node) {
        let ghost models = list_model(self@);
        let mut out: Vec<Node> = Vec::new();
        let mut i: usize = 0;
        while i < self.len()
            invariant
                i <= self.len(),
                out.len() == i,
                models == list_model(self@),
                forall|j: int| 0 <= j < i ==> (#[trigger] out@[j])@ == T::encoded(models[j]),
            decreases self.len() - i,
        {
            out.push(self[i].encode());
            i = i + 1;
        }
        assert(items_view(out@) =~= Seq::new(models.len(), |i: int| T::encoded(models[i])));
        Node::Array(out)
    }

    proof fn lemma_round_trip(model: Seq<T::Model>) {
        let items = Seq::new(model.len(), |i: int| T::encoded(model[i]));
        assert forall|i: int| 0 <= i < items.len() implies (#[trigger] T::decoded(items[i]))
            == Some(model[i]) by {
            T::lemma_round_trip(model[i]);
        }
        assert(Seq::new(items.len(), |i: int| T::decoded(items[i])->0) =~= model);
    }

    proof fn lemma_decoded_valid(tree: Tree) {
        let items = tree->Array_0;
        let model = Self::decoded(tree)->0;
        assert forall|i: int| 0 <= i < model.len() implies T::valid(#[trigger] model[i]) by {
            assert(T::decoded(items[i]) is Some);
            T::lemma_decoded_valid(items[i]);
        }
    }

    proof fn lemma_encoded_well_formed(model: Seq<T::Model>) {
        let items = Self::encoded(model)->Array_0;
        assert forall|i: int| 0 <= i < items.len() implies (#[trigger] items[i]).well_formed() by {
            T::lemma_encoded_well_formed(model[i]);
        }
    }

    proof fn lemma_no_fault(tree: Tree) {
    }
}

/// A mapping is an object of the tree: each key is a name, and each value is
/// decoded under it, in order.
impl<T: Wire> Wire for Dict<T> {
    type Model = Seq<(Seq<char>, T::Model)>;

    open spec fn model(&self) -> Seq<(Seq<char>, T::Model)> {
        dict_model(self.entries@)
    }

    open spec fn decoded(tree: Tree) -> Option<Seq<(Seq<char>, T::Model)>> {
        match tree {
            Tree::Object(entries) => if all_values_decode::<T>(entries) {
                Some(Seq::new(entries.len(), |i: int| (entries[i].0, T::decoded(entries[i].1)->0)))
            } else {
                None
            },
            _ => None,
        }
    }

    open spec fn encoded(model: Seq<(Seq<char>, T::Model)>) -> Tree {
        Tree::Object(Seq::new(model.len(), |i: int| (model[i].0, T::encoded(model[i].1))))
    }

    open spec fn valid(model: Seq<(Seq<char>, T::Model)>) -> bool {
        &&& distinct_keys(model)
        &&& forall|i: int| 0 <= i < model.len() ==> T::valid((#[trigger] model[i]).1)
    }

    open spec fn fault(tree: Tree) -> Seq<Seq<char>> {
        match tree {
            Tree::Object(entries) => if all_values_decode::<T>(entries) {
                Seq::empty()
            } else {
                let i = first_fault_entry::<T>(entries);
                below(entries[i].0, T::fault(entries[i].1))
            },
            _ => Seq::empty(),
        }
    }

    fn decode(node: &Node) -> (r: Result<Dict<T>, Mismatch>) {
        match node {
            Node::Object(entries) => {
                let ghost trees = entries_view(entries@);
                let mut out: Vec<(String, T)> = Vec::new();
                let mut i: usize = 0;
                while i < entries.len()
                    invariant
                        i <= entries.len(),
                        out.len() == i,
                        trees == entries_view(entries@),
                        node@ == Tree::Object(trees),
                        forall|j: int|
                            0 <= j < i ==> (#[trigger] out@[j]).0@ == trees[j].0 && T::decoded(
                                trees[j].1,
                            ) == Some(out@[j].1.model()),
                    decreases entries.len() - i,
                {
                    match T::decode(&entries[i].1) {
                        Ok(x) => {
                            out.push((entries[i].0.clone(), x));
                        },
                        Err(m) => {
                            proof {
                                assert forall|j: int| 0 <= j < i implies (#[trigger] T::decoded(
                                    trees[j].1,
                                )) is Some by {
                                    assert(T::decoded(trees[j].1) == Some(out@[j].1.model()));
                                }
                                lemma_first_fault_entry::<T>(trees, i as int);
                            }
                            return Err(m.under(entries[i].0.as_str()));
                        },
                    }
                    i = i + 1;
                }
                assert forall|j: int| 0 <= j < trees.len() implies (#[trigger] T::decoded(
                    trees[j].1,
                )) is Some by {
                    assert(T::decoded(trees[j].1) == Some(out@[j].1.model()));
                }
                assert(dict_model(out@) =~= Seq::new(
                    trees.len(),
                    |i: int| (trees[i].0, T::decoded(trees[i].1)->0),
                ));
                Ok(Dict { entries: out })
            },
            _ => Err(Mismatch::here()),
        }
    }

    fn encode(&self) -> (r: Node) {
        let ghost models = dict_model(self.entries@);
        let mut out: Vec<(String, Node)> = Vec::new();
        let mut i: usize = 0;
        while i < self.entries.len()
            invariant
                i <= self.entries.len(),
                out.len() == i,
                models == dict_model(self.entries@),
                forall|j: int|
                    0 <= j < i ==> (#[trigger] out@[j]).0@ == models[j].0 && out@[j].1@
                        == T::encoded(models[j].1),
            decreases self.entries.len() - i,
        {
            out.push((self.entries[i].0.clone(), self.entries[i].1.encode()));
            i = i + 1;
        }
        assert(entries_view(out@) =~= Seq::new(
            models.len(),
            |i: int| (models[i].0, T::encoded(models[i].1)),
        ));
        Node::Object(out)
    }

    proof fn lemma_round_trip(model: Seq<(Seq<char>, T::Model)>) {
        let entries = Seq::new(model.len(), |i: int| (model[i].0, T::encoded(model[i].1)));
        assert forall|i: int| 0 <= i < entries.len() implies (#[trigger] T::decoded(entries[i].1))
            == Some(model[i].1) by {
            T::lemma_round_trip(model[i].1);
        }
        assert(Seq::new(entries.len(), |i: int| (entries[i].0, T::decoded(entries[i].1)->0))
            =~= model);
    }

    proof fn lemma_decoded_valid(tree: Tree) {
        let entries = tree->Object_0;
        let model = Self::decoded(tree)->0;
        assert forall|i: int| 0 <= i < model.len() implies T::valid((#[trigger] model[i]).1) by {
            assert(T::decoded(entries[i].1) is Some);
            T::lemma_decoded_valid(entries[i].1);
        }
        assert forall|i: int, j: int| 0 <= i < j < model.len() implies (#[trigger] model[i]).0 != (
        #[trigger] model[j]).0 by {
            assert(entries[i].0 != entries[j].0);
        }
    }

    proof fn lemma_encoded_well_formed(model: Seq<(Seq<char>, T::Model)>) {
        let entries = Self::encoded(model)->Object_0;
        assert forall|i: int| 0 <= i < entries.len() implies (
        #[trigger] entries[i]).1.well_formed() by {
            assert(T::valid(model[i].1));
            T::lemma_encoded_well_formed(model[i].1);
        }
        assert forall|i: int, j: int| 0 <= i < j < entries.len() implies (#[trigger] entries[i]).0
            != (#[trigger] entries[j]).0 by {
            assert(model[i].0 != model[j].0);
        }
    }

    proof fn lemma_no_fault(tree: Tree) {
    }
}

impl<T: Wire> Dict<T> {
    /// The number of entries.
    pub fn len(&self) -> (r: usize)
        ensures
            r == self.model().len(),
    {
        self.entries.len()
    }

    /// The value under `key`: that of the last entry with this name.
    pub fn get(&self, key: &str) -> (r: Option<&T>)
        ensures
            match r {
                Some(v) => lookup(self.model(), key@) == Some(v.model()),
                None => lookup(self.model(), key@) is None,
            },
    {
        let ghost model = self.model();
        let mut i: usize = self.entries.len();
        while i > 0
            invariant
                i <= self.entries.len(),
                model == dict_model(self.entries@),
                forall|j: int| i <= j < model.len() ==> (#[trigger] model[j]).0 != key@,
            decreases i,
        {
            i = i - 1;
            if same_text(self.entries[i].0.as_str(), key) {
                proof {
                    lemma_last_index_is(model, key@, i as int);
                }
                return Some(&self.entries[i].1);
            }
        }
        proof {
            lemma_last_index_is(model, key@, -1);
        }
        None
    }
}

} // verus!
