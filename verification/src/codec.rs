//! How typed values are decoded from, and encoded into, the generic tree.

use vstd::prelude::*;
use vstd::string::StringSliceAdditionalSpecFns;
use vstd::utf8::encode_utf8_decode_utf8;

use crate::tree::{
    distinct_keys, entries_view, last_index, lemma_last_index, lemma_last_index_is, lookup, Node,
    Tree,
};

verus! {

/// A tree did not have the shape that a type asks for.
#[derive(Debug, PartialEq, Eq)]
pub struct Mismatch {
    /// The keys that lead from the top of the tree to the value that has
    /// another shape, the outermost first. The items of a list have no key:
    /// the path goes on inside the item.
    pub path: Vec<String>,
}

/// The keys of a path, in order.
pub open spec fn path_model(path: Seq<String>) -> Seq<Seq<char>> {
    Seq::new(path.len(), |i: int| path[i]@)
}

/// The path that starts with `key` and goes on with `rest`.
pub open spec fn below(key: Seq<char>, rest: Seq<Seq<char>>) -> Seq<Seq<char>> {
    Seq::empty().push(key) + rest
}

impl Mismatch {
    /// The keys of the path, in order.
    pub open spec fn model(&self) -> Seq<Seq<char>> {
        path_model(self.path@)
    }

    /// The mismatch of a tree that has another shape itself.
    pub fn here() -> (r: Mismatch)
        ensures
            r.model() == Seq::<Seq<char>>::empty(),
    {
        let r = Mismatch { path: Vec::new() };
        assert(r.model() =~= Seq::<Seq<char>>::empty());
        r
    }

    /// The same mismatch, seen from the object that holds the tree under
    /// `key`.
    pub fn under(self, key: &str) -> (r: Mismatch)
        ensures
            r.model() == below(key@, self.model()),
    {
        let mut path = self.path;
        path.insert(0, key.to_owned());
        let r = Mismatch { path };
        assert(r.model() =~= below(key@, self.model()));
        r
    }
}

/// A type that has a form in the generic tree.
///
/// No type is encoded as `null`: in an object, `null` stands for a field
/// that is absent.
pub trait Wire: Sized {
    /// The mathematical model of a value.
    type Model;

    /// The model of this value.
    spec fn model(&self) -> Self::Model;

    /// What a tree decodes to, or `None` where it does not have the shape of
    /// this type.
    spec fn decoded(tree: Tree) -> Option<Self::Model>;

    /// The tree that a value is encoded as.
    spec fn encoded(model: Self::Model) -> Tree;

    /// What holds of every value that was decoded from a well-formed tree.
    spec fn valid(model: Self::Model) -> bool;

    /// Where a tree does not decode: the keys that lead from its top to the
    /// first value that has another shape than is asked for. The path is
    /// empty where that is the tree itself, and where the tree decodes.
    spec fn fault(tree: Tree) -> Seq<Seq<char>>;

    /// Decodes a value from a tree. A failure says where the tree has
    /// another shape.
    fn decode(node: &Node) -> (r: Result<Self, Mismatch>)
        ensures
            match r {
                Ok(x) => Self::decoded(node@) == Some(x.model()),
                Err(m) => Self::decoded(node@) is None && m.model() == Self::fault(node@),
            },
    ;

    /// Encodes a value as a tree.
    fn encode(&self) -> (r: Node)
        ensures
            r@ == Self::encoded(self.model()),
    ;

    /// Decoding the encoding of a valid value gives the value back, and the
    /// encoding is not `null`.
    proof fn lemma_round_trip(model: Self::Model)
        requires
            Self::valid(model),
        ensures
            Self::decoded(Self::encoded(model)) == Some(model),
            !(Self::encoded(model) is Null),
    ;

    /// What is decoded from a well-formed tree is valid.
    proof fn lemma_decoded_valid(tree: Tree)
        requires
            tree.well_formed(),
            Self::decoded(tree) is Some,
        ensures
            Self::valid(Self::decoded(tree)->0),
    ;

    /// The encoding of a valid value is well-formed.
    proof fn lemma_encoded_well_formed(model: Self::Model)
        requires
            Self::valid(model),
        ensures
            Self::encoded(model).well_formed(),
    ;

    /// A tree that decodes has no fault.
    proof fn lemma_no_fault(tree: Tree)
        requires
            Self::decoded(tree) is Some,
        ensures
            Self::fault(tree) == Seq::<Seq<char>>::empty(),
    ;
}

/// The model of a field that may be absent.
pub open spec fn opt_model<T: Wire>(x: Option<T>) -> Option<T::Model> {
    match x {
        Some(v) => Some(v.model()),
        None => None,
    }
}

/// A field is valid where it is absent or holds a valid value.
pub open spec fn opt_valid<T: Wire>(m: Option<T::Model>) -> bool {
    match m {
        Some(v) => T::valid(v),
        None => true,
    }
}

/// The field under `key` of an object: absent where the object has no such
/// key or holds `null` under it, else what the value under it decodes to.
/// The result is `None` where that value does not have the shape of `T`.
pub open spec fn at<T: Wire>(entries: Seq<(Seq<char>, Tree)>, key: Seq<char>) -> Option<
    Option<T::Model>,
> {
    match lookup(entries, key) {
        None => Some(None),
        Some(Tree::Null) => Some(None),
        Some(t) => match T::decoded(t) {
            Some(m) => Some(Some(m)),
            None => None,
        },
    }
}

/// Where the field under `key` of an object does not decode: the key, and
/// then the path inside the value under it.
pub open spec fn at_fault<T: Wire>(entries: Seq<(Seq<char>, Tree)>, key: Seq<char>) -> Seq<
    Seq<char>,
> {
    match lookup(entries, key) {
        Some(t) => below(key, T::fault(t)),
        None => Seq::empty(),
    }
}

/// The tree that a field is encoded as: `null` where it is absent.
pub open spec fn tree_of<T: Wire>(m: Option<T::Model>) -> Tree {
    match m {
        Some(v) => T::encoded(v),
        None => Tree::Null,
    }
}

/// Whether two strings hold the same characters.
pub fn same_text(a: &str, b: &str) -> (r: bool)
    ensures
        r == (a@ == b@),
{
    let x = a.as_bytes();
    let y = b.as_bytes();
    proof {
        encode_utf8_decode_utf8(a@);
        encode_utf8_decode_utf8(b@);
    }
    if x.len() != y.len() {
        return false;
    }
    let mut i: usize = 0;
    while i < x.len()
        invariant
            i <= x.len(),
            x.len() == y.len(),
            x@ == a.spec_bytes(),
            y@ == b.spec_bytes(),
            forall|j: int| 0 <= j < i ==> x@[j] == y@[j],
        decreases x.len() - i,
    {
        if x[i] != y[i] {
            return false;
        }
        i = i + 1;
    }
    assert(x@ =~= y@);
    true
}

/// The index of the last entry under `key`.
pub fn find(entries: &Vec<(String, Node)>, key: &str) -> (r: Option<usize>)
    ensures
        match r {
            Some(i) => i < entries.len() && last_index(entries_view(entries@), key@) == i,
            None => last_index(entries_view(entries@), key@) == -1,
        },
{
    let ghost model = entries_view(entries@);
    let mut i: usize = entries.len();
    while i > 0
        invariant
            i <= entries.len(),
            model == entries_view(entries@),
            forall|j: int| i <= j < model.len() ==> (#[trigger] model[j]).0 != key@,
        decreases i,
    {
        i = i - 1;
        if same_text(entries[i].0.as_str(), key) {
            proof {
                lemma_last_index_is(model, key@, i as int);
            }
            return Some(i);
        }
    }
    proof {
        lemma_last_index_is(model, key@, -1);
    }
    None
}

/// Decodes the field under `key` of an object. A failure starts its path
/// with the key.
pub fn field<T: Wire>(entries: &Vec<(String, Node)>, key: &str) -> (r: Result<Option<T>, Mismatch>)
    ensures
        match r {
            Ok(x) => at::<T>(entries_view(entries@), key@) == Some(opt_model(x)),
            Err(m) => {
                &&& at::<T>(entries_view(entries@), key@) is None
                &&& m.model() == at_fault::<T>(entries_view(entries@), key@)
            },
        },
{
    match find(entries, key) {
        None => Ok(None),
        Some(i) => {
            let node = &entries[i].1;
            match node {
                Node::Null => Ok(None),
                _ => match T::decode(node) {
                    Ok(x) => Ok(Some(x)),
                    Err(m) => Err(m.under(key)),
                },
            }
        },
    }
}

/// Encodes a field.
pub fn emit<T: Wire>(x: &Option<T>) -> (r: Node)
    ensures
        r@ == tree_of::<T>(opt_model(*x)),
{
    match x {
        Some(v) => v.encode(),
        None => Node::Null,
    }
}

/// An object under construction, without entries.
pub fn new_object() -> (r: Vec<(String, Node)>)
    ensures
        entries_view(r@) == Seq::<(Seq<char>, Tree)>::empty(),
{
    Vec::new()
}

/// Adds an entry at the end of an object under construction.
pub fn push_entry(entries: &mut Vec<(String, Node)>, key: &str, node: Node)
    ensures
        entries_view(final(entries)@) == entries_view(old(entries)@).push((key@, node@)),
{
    entries.push((key.to_owned(), node));
}

/// A field that was encoded at index `i` of an object, under a key that no
/// other entry has, decodes to itself.
pub proof fn lemma_field_round_trip<T: Wire>(
    entries: Seq<(Seq<char>, Tree)>,
    i: int,
    m: Option<T::Model>,
)
    requires
        0 <= i < entries.len(),
        distinct_keys(entries),
        entries[i].1 == tree_of::<T>(m),
        opt_valid::<T>(m),
    ensures
        at::<T>(entries, entries[i].0) == Some(m),
{
    lemma_last_index_is(entries, entries[i].0, i);
    if m is Some {
        T::lemma_round_trip(m->0);
    }
}

/// A field whose key an object does not hold is absent, whatever its type.
pub proof fn lemma_field_absent<T: Wire>(entries: Seq<(Seq<char>, Tree)>, key: Seq<char>)
    requires
        forall|i: int| 0 <= i < entries.len() ==> (#[trigger] entries[i]).0 != key,
    ensures
        at::<T>(entries, key) == Some(None::<T::Model>),
{
    lemma_last_index_is(entries, key, -1);
}

/// A field under which an object holds `null` is absent, whatever its type.
pub proof fn lemma_field_null<T: Wire>(entries: Seq<(Seq<char>, Tree)>, key: Seq<char>)
    requires
        lookup(entries, key) == Some(Tree::Null),
    ensures
        at::<T>(entries, key) == Some(None::<T::Model>),
{
}

/// A field that was decoded from a well-formed object is valid.
pub proof fn lemma_field_valid<T: Wire>(entries: Seq<(Seq<char>, Tree)>, key: Seq<char>)
    requires
        Tree::Object(entries).well_formed(),
        at::<T>(entries, key) is Some,
    ensures
        opt_valid::<T>(at::<T>(entries, key)->0),
{
    lemma_last_index(entries, key);
    match lookup(entries, key) {
        None => {},
        Some(Tree::Null) => {},
        Some(t) => {
            T::lemma_decoded_valid(t);
        },
    }
}

/// The encoding of a valid field is well-formed.
pub proof fn lemma_tree_of_well_formed<T: Wire>(m: Option<T::Model>)
    requires
        opt_valid::<T>(m),
    ensures
        tree_of::<T>(m).well_formed(),
{
    if m is Some {
        T::lemma_encoded_well_formed(m->0);
    }
}

} // verus!
