//! The tree forms of text, flags, numbers and untyped values.

use vstd::prelude::*;

use crate::codec::{Mismatch, Wire};
use crate::tree::{entries_view, items_view, Node, Number, Tree};

verus! {

/// A copy of a tree.
pub fn copy_node(node: &Node) -> (r: Node)
    ensures
        r@ == node@,
    decreases node,
{
    match node {
        Node::Null => Node::Null,
        Node::Boolean(b) => Node::Boolean(*b),
        Node::Number(n) => Node::Number(*n),
        Node::Text(s) => Node::Text(s.clone()),
        Node::Array(items) => {
            let mut out: Vec<Node> = Vec::new();
            let mut i: usize = 0;
            while i < items.len()
                invariant
                    *node == Node::Array(*items),
                    i <= items.len(),
                    out.len() == i,
                    forall|j: int| 0 <= j < i ==> out@[j]@ == items@[j]@,
                decreases items.len() - i,
            {
                assert(decreases_to!(node => node->Array_0));
                let item = copy_node(&items[i]);
                out.push(item);
                i = i + 1;
            }
            assert(items_view(out@) =~= items_view(items@));
            Node::Array(out)
        },
        Node::Object(entries) => {
            let mut out: Vec<(String, Node)> = Vec::new();
            let mut i: usize = 0;
            while i < entries.len()
                invariant
                    *node == Node::Object(*entries),
                    i <= entries.len(),
                    out.len() == i,
                    forall|j: int|
                        0 <= j < i ==> out@[j].0@ == entries@[j].0@ && out@[j].1@ == entries@[j].1@,
                decreases entries.len() - i,
            {
                assert(decreases_to!(node => node->Object_0));
                let item = copy_node(&entries[i].1);
                out.push((entries[i].0.clone(), item));
                i = i + 1;
            }
            assert(entries_view(out@) =~= entries_view(entries@));
            Node::Object(out)
        },
    }
}

/// Text is a string of the tree.
impl Wire for String {
    type Model = Seq<char>;

    open spec fn model(&self) -> Seq<char> {
        self@
    }

    open spec fn decoded(tree: Tree) -> Option<Seq<char>> {
        match tree {
            Tree::Text(s) => Some(s),
            _ => None,
        }
    }

    open spec fn encoded(model: Seq<char>) -> Tree {
        Tree::Text(model)
    }

    open spec fn valid(model: Seq<char>) -> bool {
        true
    }

    open spec fn fault(tree: Tree) -> Seq<Seq<char>> {
        Seq::empty()
    }

    fn decode(node: &Node) -> (r: Result<String, Mismatch>) {
        match node {
            Node::Text(s) => Ok(s.clone()),
            _ => Err(Mismatch::here()),
        }
    }

    fn encode(&self) -> (r: Node) {
        Node::Text(self.clone())
    }

    proof fn lemma_round_trip(model: Seq<char>) {
    }

    proof fn lemma_decoded_valid(tree: Tree) {
    }

    proof fn lemma_encoded_well_formed(model: Seq<char>) {
    }

    proof fn lemma_no_fault(tree: Tree) {
    }
}

/// A flag is a boolean of the tree.
impl Wire for bool {
    type Model = bool;

    open spec fn model(&self) -> bool {
        *self
    }

    open spec fn decoded(tree: Tree) -> Option<bool> {
        match tree {
            Tree::Boolean(b) => Some(b),
            _ => None,
        }
    }

    open spec fn encoded(model: bool) -> Tree {
        Tree::Boolean(model)
    }

    open spec fn valid(model: bool) -> bool {
        true
    }

    open spec fn fault(tree: Tree) -> Seq<Seq<char>> {
        Seq::empty()
    }

    fn decode(node: &Node) -> (r: Result<bool, Mismatch>) {
        match node {
            Node::Boolean(b) => Ok(*b),
            _ => Err(Mismatch::here()),
        }
    }

    fn encode(&self) -> (r: Node) {
        Node::Boolean(*self)
    }

    proof fn lemma_round_trip(model: bool) {
    }

    proof fn lemma_decoded_valid(tree: Tree) {
    }

    proof fn lemma_encoded_well_formed(model: bool) {
    }

    proof fn lemma_no_fault(tree: Tree) {
    }
}

/// A count is a number of the tree that is written as an integer and lies
/// between 0 and `u32::MAX`.
impl Wire for u32 {
    type Model = u32;

    open spec fn model(&self) -> u32 {
        *self
    }

    open spec fn decoded(tree: Tree) -> Option<u32> {
        match tree {
            Tree::Number(Number::PosInt(n)) => if n <= u32::MAX {
                Some(n as u32)
            } else {
                None
            },
            _ => None,
        }
    }

    open spec fn encoded(model: u32) -> Tree {
        Tree::Number(Number::PosInt(model as u64))
    }

    open spec fn valid(model: u32) -> bool {
        true
    }

    open spec fn fault(tree: Tree) -> Seq<Seq<char>> {
        Seq::empty()
    }

    fn decode(node: &Node) -> (r: Result<u32, Mismatch>) {
        match node {
            Node::Number(Number::PosInt(n)) => if *n <= 0xffff_ffff {
                Ok(*n as u32)
            } else {
                Err(Mismatch::here())
            },
            _ => Err(Mismatch::here()),
        }
    }

    fn encode(&self) -> (r: Node) {
        Node::Number(Number::PosInt(*self as u64))
    }

    proof fn lemma_round_trip(model: u32) {
    }

    proof fn lemma_decoded_valid(tree: Tree) {
    }

    proof fn lemma_encoded_well_formed(model: u32) {
    }

    proof fn lemma_no_fault(tree: Tree) {
    }
}

/// A bound is any number of the tree.
impl Wire for Number {
    type Model = Number;

    open spec fn model(&self) -> Number {
        *self
    }

    open spec fn decoded(tree: Tree) -> Option<Number> {
        match tree {
            Tree::Number(n) => Some(n),
            _ => None,
        }
    }

    open spec fn encoded(model: Number) -> Tree {
        Tree::Number(model)
    }

    open spec fn valid(model: Number) -> bool {
        true
    }

    open spec fn fault(tree: Tree) -> Seq<Seq<char>> {
        Seq::empty()
    }

    fn decode(node: &Node) -> (r: Result<Number, Mismatch>) {
        match node {
            Node::Number(n) => Ok(*n),
            _ => Err(Mismatch::here()),
        }
    }

    fn encode(&self) -> (r: Node) {
        Node::Number(*self)
    }

    proof fn lemma_round_trip(model: Number) {
    }

    proof fn lemma_decoded_valid(tree: Tree) {
    }

    proof fn lemma_encoded_well_formed(model: Number) {
    }

    proof fn lemma_no_fault(tree: Tree) {
    }
}

/// An untyped value is any tree but `null`, kept as it is.
impl Wire for Node {
    type Model = Tree;

    open spec fn model(&self) -> Tree {
        self@
    }

    open spec fn decoded(tree: Tree) -> Option<Tree> {
        if tree is Null {
            None
        } else {
            Some(tree)
        }
    }

    open spec fn encoded(model: Tree) -> Tree {
        model
    }

    open spec fn valid(model: Tree) -> bool {
        !(model is Null) && model.well_formed()
    }

    open spec fn fault(tree: Tree) -> Seq<Seq<char>> {
        Seq::empty()
    }

    fn decode(node: &Node) -> (r: Result<Node, Mismatch>) {
        match node {
            Node::Null => Err(Mismatch::here()),
            _ => Ok(copy_node(node)),
        }
    }

    fn encode(&self) -> (r: Node) {
        copy_node(self)
    }

    proof fn lemma_round_trip(model: Tree) {
    }

    proof fn lemma_decoded_valid(tree: Tree) {
    }

    proof fn lemma_encoded_well_formed(model: Tree) {
    }

    proof fn lemma_no_fault(tree: Tree) {
    }
}

} // verus!
