//! The responses of an operation: a mapping from status codes to responses
//! that shares its object with the response of the key `default`.

use vstd::prelude::*;

use crate::codec::{
    at, at_fault, emit, field, lemma_field_valid, lemma_tree_of_well_formed, opt_model,
    opt_valid, same_text, tree_of, Mismatch, Wire,
};
use crate::collection::{all_values_decode, dict_model, lemma_first_fault_entry, Dict};
use crate::open_api::content::{Response, ResponseModel};
use crate::tree::{distinct_keys, entries_view, lemma_last_index_is, Node, Tree};

verus! {

/// The entries of an object but those under `key`, in order.
pub open spec fn without(e: Seq<(Seq<char>, Tree)>, key: Seq<char>) -> Seq<(Seq<char>, Tree)>
    decreases e.len(),
{
    if e.len() == 0 {
        e
    } else if e.last().0 == key {
        without(e.drop_last(), key)
    } else {
        without(e.drop_last(), key).push(e.last())
    }
}

/// All the responses of an operation.
///
/// On the wire this is one object: the key `default` holds the response for
/// every status code that is not named, and each other key is a status code
/// with its response.
#[derive(Debug, PartialEq)]
pub struct Responses {
    /// The responses by status code; none of them is under `default`.
    pub responses: Option<Dict<Response>>,
    pub default: Option<Response>,
}

/// The model of a [`Responses`].
pub struct ResponsesModel {
    pub responses: Option<Seq<(Seq<char>, ResponseModel)>>,
    pub default: Option<ResponseModel>,
}

/// The entries that a mapping of responses is encoded as: none where it is
/// absent.
pub open spec fn coded_entries(m: Option<Seq<(Seq<char>, ResponseModel)>>) -> Seq<
    (Seq<char>, Tree),
> {
    match m {
        Some(d) => Dict::<Response>::encoded(d)->Object_0,
        None => Seq::empty(),
    }
}

/// No entry of a mapping is under `key`.
pub open spec fn key_free<V>(d: Seq<(Seq<char>, V)>, key: Seq<char>) -> bool {
    forall|i: int| 0 <= i < d.len() ==> (#[trigger] d[i]).0 != key
}

/// Taking out a key that an object does not hold leaves the object as it is.
pub proof fn lemma_without_absent(e: Seq<(Seq<char>, Tree)>, key: Seq<char>)
    requires
        key_free(e, key),
    ensures
        without(e, key) == e,
    decreases e.len(),
{
    if e.len() > 0 {
        let front = e.drop_last();
        assert forall|i: int| 0 <= i < front.len() implies (#[trigger] front[i]).0 != key by {
            assert(front[i] == e[i]);
        }
        lemma_without_absent(front, key);
        assert(front.push(e.last()) =~= e);
    }
}

/// What is left after taking out a key: entries of the object, none under
/// the key, in the order they had.
pub proof fn lemma_without(e: Seq<(Seq<char>, Tree)>, key: Seq<char>)
    ensures
        key_free(without(e, key), key),
        forall|j: int|
            0 <= j < without(e, key).len() ==> exists|i: int|
                0 <= i < e.len() && e[i] == #[trigger] without(e, key)[j],
        distinct_keys(e) ==> distinct_keys(without(e, key)),
        Tree::Object(e).well_formed() ==> Tree::Object(without(e, key)).well_formed(),
    decreases e.len(),
{
    let w = without(e, key);
    if e.len() > 0 {
        let front = e.drop_last();
        let v = without(front, key);
        lemma_without(front, key);
        assert forall|j: int| 0 <= j < w.len() implies exists|i: int|
            0 <= i < e.len() && e[i] == #[trigger] w[j] by {
            if j < v.len() {
                let i = choose|i: int| 0 <= i < front.len() && front[i] == v[j];
                assert(e[i] == w[j]);
            } else {
                assert(e[e.len() - 1] == w[j]);
            }
        }
        if distinct_keys(e) {
            assert forall|i: int, j: int| 0 <= i < j < front.len() implies (#[trigger] front[i]).0
                != (#[trigger] front[j]).0 by {
                assert(front[i] == e[i] && front[j] == e[j]);
            }
            assert forall|i: int, j: int| 0 <= i < j < w.len() implies (#[trigger] w[i]).0 != (
            #[trigger] w[j]).0 by {
                if j >= v.len() {
                    let k = choose|k: int| 0 <= k < front.len() && front[k] == v[i];
                    assert(e[k] == w[i]);
                    assert(e[e.len() - 1] == w[j]);
                }
            }
        }
        if Tree::Object(e).well_formed() {
            assert forall|j: int| 0 <= j < w.len() implies (#[trigger] w[j]).1.well_formed() by {
                let i = choose|i: int| 0 <= i < e.len() && e[i] == w[j];
                assert(e[i].1.well_formed());
            }
        }
    }
}

/// An entry that is not under the key is left after taking the key out.
pub proof fn lemma_without_keeps(e: Seq<(Seq<char>, Tree)>, key: Seq<char>, i: int)
    requires
        0 <= i < e.len(),
        e[i].0 != key,
    ensures
        exists|j: int| 0 <= j < without(e, key).len() && without(e, key)[j] == e[i],
    decreases e.len(),
{
    let w = without(e, key);
    let front = e.drop_last();
    if i == e.len() - 1 {
        assert(w[w.len() - 1] == e[i]);
    } else {
        lemma_without_keeps(front, key, i);
        let v = without(front, key);
        let j = choose|j: int| 0 <= j < v.len() && v[j] == front[i];
        assert(w[j] == e[i]);
    }
}

/// What is left of the first `n` entries of an object stands at the start of
/// what is left of all its entries.
pub proof fn lemma_without_prefix(e: Seq<(Seq<char>, Tree)>, key: Seq<char>, n: int)
    requires
        0 <= n <= e.len(),
    ensures
        without(e.take(n), key).len() <= without(e, key).len(),
        forall|k: int|
            0 <= k < without(e.take(n), key).len() ==> without(e, key)[k] == #[trigger] without(
                e.take(n),
                key,
            )[k],
    decreases e.len(),
{
    if n == e.len() {
        assert(e.take(n) =~= e);
    } else {
        let front = e.drop_last();
        assert(front.take(n) =~= e.take(n));
        lemma_without_prefix(front, key, n);
    }
}

/// Decoding a mapping with one more entry: the entry's value is decoded and
/// added at the end.
pub proof fn lemma_dict_decoded_push<T: Wire>(s: Seq<(Seq<char>, Tree)>, key: Seq<char>, v: Tree)
    ensures
        Dict::<T>::decoded(Tree::Object(s.push((key, v)))) == match (
            Dict::<T>::decoded(Tree::Object(s)),
            T::decoded(v),
        ) {
            (Some(m), Some(x)) => Some(m.push((key, x))),
            _ => None,
        },
{
    let t = s.push((key, v));
    if all_values_decode::<T>(s) && T::decoded(v) is Some {
        assert forall|i: int| 0 <= i < t.len() implies (#[trigger] T::decoded(t[i].1)) is Some by {
            if i < s.len() {
                assert(t[i] == s[i]);
                assert(T::decoded(s[i].1) is Some);
            }
        }
        assert(Dict::<T>::decoded(Tree::Object(t))->0 =~= Dict::<T>::decoded(
            Tree::Object(s),
        )->0.push((key, T::decoded(v)->0)));
    } else if !all_values_decode::<T>(s) {
        let i = choose|i: int| 0 <= i < s.len() && !(#[trigger] T::decoded(s[i].1) is Some);
        assert(t[i] == s[i]);
        assert(!(T::decoded(t[i].1) is Some));
    } else {
        assert(t[s.len() as int].1 == v);
        assert(!(T::decoded(t[s.len() as int].1) is Some));
    }
}

impl Wire for Responses {
    type Model = ResponsesModel;

    open spec fn model(&self) -> ResponsesModel {
        ResponsesModel { responses: opt_model(self.responses), default: opt_model(self.default) }
    }

    open spec fn decoded(tree: Tree) -> Option<ResponsesModel> {
        match tree {
            Tree::Object(e) => {
                let responses = Dict::<Response>::decoded(Tree::Object(without(e, "default"@)));
                let default = at::<Response>(e, "default"@);
                if responses is Some && default is Some {
                    Some(ResponsesModel { responses: Some(responses->0), default: default->0 })
                } else {
                    None
                }
            },
            _ => None,
        }
    }

    open spec fn encoded(model: ResponsesModel) -> Tree {
        Tree::Object(
            coded_entries(model.responses).push(("default"@, tree_of::<Response>(model.default))),
        )
    }

    open spec fn valid(model: ResponsesModel) -> bool {
        &&& model.responses is Some
        &&& Dict::<Response>::valid(model.responses->0)
        &&& key_free(model.responses->0, "default"@)
        &&& opt_valid::<Response>(model.default)
    }

    open spec fn fault(tree: Tree) -> Seq<Seq<char>> {
        match tree {
            Tree::Object(e) => {
                if at::<Response>(e, "default"@) is None {
                    at_fault::<Response>(e, "default"@)
                } else {
                    Dict::<Response>::fault(Tree::Object(without(e, "default"@)))
                }
            },
            _ => Seq::empty(),
        }
    }

    fn decode(node: &Node) -> (r: Result<Responses, Mismatch>) {
        match node {
            Node::Object(e) => {
                let default = field::<Response>(e, "default")?;
                let ghost trees = entries_view(e@);
                let mut out: Vec<(String, Response)> = Vec::new();
                let mut i: usize = 0;
                assert(trees.take(0) =~= Seq::empty());
                assert(dict_model(out@) =~= Seq::empty());
                assert(Dict::<Response>::decoded(Tree::Object(Seq::empty()))->0 =~= Seq::empty());
                while i < e.len()
                    invariant
                        i <= e.len(),
                        trees == entries_view(e@),
                        node@ == Tree::Object(trees),
                        at::<Response>(trees, "default"@) == Some(opt_model(default)),
                        Dict::<Response>::decoded(
                            Tree::Object(without(trees.take(i as int), "default"@)),
                        ) == Some(dict_model(out@)),
                    decreases e.len() - i,
                {
                    let ghost before = without(trees.take(i as int), "default"@);
                    assert(trees.take(i + 1).drop_last() =~= trees.take(i as int));
                    if !same_text(e[i].0.as_str(), "default") {
                        proof {
                            let here = trees[i as int];
                            lemma_dict_decoded_push::<Response>(before, here.0, here.1);
                        }
                        match Response::decode(&e[i].1) {
                            Ok(x) => {
                                let ghost models = dict_model(out@);
                                out.push((e[i].0.clone(), x));
                                assert(dict_model(out@) =~= models.push(
                                    (trees[i as int].0, x.model()),
                                ));
                            },
                            Err(m) => {
                                proof {
                                    let w = without(trees, "default"@);
                                    let here = trees[i as int];
                                    let seen = before.push(here);
                                    assert(without(trees.take(i + 1), "default"@) == seen);
                                    lemma_without_prefix(trees, "default"@, i + 1);
                                    let j = before.len() as int;
                                    assert(w[j] == seen[j]);
                                    assert forall|k: int| 0 <= k < j implies (
                                    #[trigger] Response::decoded(w[k].1)) is Some by {
                                        assert(w[k] == seen[k]);
                                        assert(Response::decoded(before[k].1) is Some);
                                    }
                                    lemma_first_fault_entry::<Response>(w, j);
                                }
                                return Err(m.under(e[i].0.as_str()));
                            },
                        }
                    }
                    i = i + 1;
                }
                assert(trees.take(e.len() as int) =~= trees);
                Ok(Responses { responses: Some(Dict { entries: out }), default })
            },
            _ => Err(Mismatch::here()),
        }
    }

    fn encode(&self) -> (r: Node) {
        let mut e: Vec<(String, Node)> = match &self.responses {
            Some(d) => match d.encode() {
                Node::Object(entries) => entries,
                _ => Vec::new(),
            },
            None => Vec::new(),
        };
        let ghost named = entries_view(e@);
        assert(named =~= coded_entries(opt_model(self.responses)));
        e.push(("default".to_owned(), emit(&self.default)));
        assert(entries_view(e@) =~= named.push(
            ("default"@, tree_of::<Response>(opt_model(self.default))),
        ));
        Node::Object(e)
    }

    proof fn lemma_round_trip(model: ResponsesModel) {
        let d = model.responses->0;
        let named = coded_entries(model.responses);
        let e = Self::encoded(model)->Object_0;
        assert(e.drop_last() =~= named);
        assert(key_free(named, "default"@)) by {
            assert forall|i: int| 0 <= i < named.len() implies (#[trigger] named[i]).0
                != "default"@ by {
                assert(d[i].0 != "default"@);
            }
        }
        lemma_without_absent(named, "default"@);
        Dict::<Response>::lemma_round_trip(d);
        lemma_last_index_is(e, "default"@, e.len() - 1);
        if model.default is Some {
            Response::lemma_round_trip(model.default->0);
        }
    }

    proof fn lemma_decoded_valid(tree: Tree) {
        let e = tree->Object_0;
        let w = without(e, "default"@);
        lemma_without(e, "default"@);
        Dict::<Response>::lemma_decoded_valid(Tree::Object(w));
        lemma_field_valid::<Response>(e, "default"@);
        let d = Dict::<Response>::decoded(Tree::Object(w))->0;
        assert forall|i: int| 0 <= i < d.len() implies (#[trigger] d[i]).0 != "default"@ by {
            assert(w[i].0 != "default"@);
        }
    }

    proof fn lemma_encoded_well_formed(model: ResponsesModel) {
        let d = model.responses->0;
        let named = coded_entries(model.responses);
        let e = Self::encoded(model)->Object_0;
        Dict::<Response>::lemma_encoded_well_formed(d);
        lemma_tree_of_well_formed::<Response>(model.default);
        assert forall|i: int| 0 <= i < e.len() implies (#[trigger] e[i]).1.well_formed() by {
            if i < named.len() {
                assert(e[i] == named[i]);
            }
        }
        assert forall|i: int, j: int| 0 <= i < j < e.len() implies (#[trigger] e[i]).0 != (
        #[trigger] e[j]).0 by {
            assert(e[i] == named[i]);
            if j < named.len() {
                assert(e[j] == named[j]);
            } else {
                assert(d[i].0 != "default"@);
            }
        }
    }

    proof fn lemma_no_fault(tree: Tree) {
    }
}

} // verus!
