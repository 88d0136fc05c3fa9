//! A two-level certified map: outer keys to inner keys to leaf bytes,
//! backed by the red-black hash tree of the certification crate.  The
//! contents are modelled as a map of maps.  The root hash and the witness
//! bytes are named functions of the tree value itself, not of the
//! contents: the backing tree's shape, and with it the hash, depends on
//! the order of the insertions and removals that built it, so two trees
//! with equal contents need not hash alike.

use vstd::prelude::*;

use ic_certification::AsHashTree;
use serde::Serialize;

verus! {

/// The contents of a nested certified tree: outer key bytes to inner key
/// bytes to leaf bytes.
pub type NestedModel = Map<Seq<u8>, Map<Seq<u8>, Seq<u8>>>;

/// A two-level certified map.  The tree itself is opaque; all contracts
/// speak of `nested_model`.
#[verifier::external_body]
pub struct NestedHashTree {
    tree: ic_certification::RbTree<Vec<u8>, ic_certification::RbTree<Vec<u8>, Vec<u8>>>,
}

/// What a nested certified tree holds.
pub uninterp spec fn nested_model(t: &NestedHashTree) -> NestedModel;

/// The root hash of a nested certified tree, as the certification crate
/// computes it: a function of the tree value (whose shape reflects its
/// operation history), not of the contents alone.
pub uninterp spec fn nested_root_of(t: &NestedHashTree) -> Seq<u8>;

/// The CBOR serialization of the labeled witness for the given outer key
/// (and inner key, when one is asked for), without a self-describing
/// tag.  A function of the tree value, the label and the queried path;
/// like the root hash, it depends on the tree's shape, not only on the
/// contents.
pub uninterp spec fn nested_witness_of(
    t: &NestedHashTree,
    label: Seq<u8>,
    outer: Seq<u8>,
    inner: Option<Seq<u8>>,
) -> Seq<u8>;

/// The contents after setting `m[outer][inner] = value`, creating the
/// inner map when absent.
pub open spec fn spec_nested_insert(
    m: NestedModel,
    outer: Seq<u8>,
    inner: Seq<u8>,
    value: Seq<u8>,
) -> NestedModel {
    let sub = if m.contains_key(outer) {
        m[outer]
    } else {
        Map::<Seq<u8>, Seq<u8>>::empty()
    };
    m.insert(outer, sub.insert(inner, value))
}

/// The contents after removing `m[outer][inner]`; an inner map left empty
/// is removed with its outer key.
pub open spec fn spec_nested_remove(m: NestedModel, outer: Seq<u8>, inner: Seq<u8>) -> NestedModel {
    if m.contains_key(outer) {
        let sub = m[outer].remove(inner);
        if sub.dom() =~= Set::<Seq<u8>>::empty() {
            m.remove(outer)
        } else {
            m.insert(outer, sub)
        }
    } else {
        m
    }
}

impl NestedHashTree {
    /// Relies on `RbTree::new`: a new tree holds nothing.
    #[verifier::external_body]
    pub fn new() -> (t: NestedHashTree)
        ensures
            nested_model(&t) == NestedModel::empty(),
    {
        NestedHashTree { tree: ic_certification::RbTree::new() }
    }

    /// Relies on `RbTree::get`, `RbTree::modify` and `RbTree::insert`:
    /// inserting under an existing outer key updates its inner tree, and
    /// under a fresh outer key creates a one-entry inner tree.
    #[verifier::external_body]
    pub fn insert(&mut self, outer: &Vec<u8>, inner: &Vec<u8>, value: &Vec<u8>)
        ensures
            nested_model(final(self)) == spec_nested_insert(
                nested_model(old(self)),
                outer@,
                inner@,
                value@,
            ),
    {
        if self.tree.get(outer.as_slice()).is_some() {
            self.tree.modify(outer.as_slice(), |sub| sub.insert(inner.clone(), value.clone()));
        } else {
            let mut sub = ic_certification::RbTree::new();
            sub.insert(inner.clone(), value.clone());
            self.tree.insert(outer.clone(), sub);
        }
    }

    /// Relies on `RbTree::modify`, `RbTree::is_empty` and `RbTree::delete`:
    /// removing an inner key, and the outer key too once its inner tree is
    /// empty.  Removal of an absent key changes nothing.
    #[verifier::external_body]
    pub fn remove(&mut self, outer: &Vec<u8>, inner: &Vec<u8>)
        ensures
            nested_model(final(self)) == spec_nested_remove(nested_model(old(self)), outer@, inner@),
    {
        let mut emptied = false;
        self.tree.modify(outer.as_slice(), |sub| {
            sub.delete(inner.as_slice());
            emptied = sub.is_empty();
        });
        if emptied {
            self.tree.delete(outer.as_slice());
        }
    }

    /// Relies on `RbTree::get`: whether the path is present.
    #[verifier::external_body]
    pub fn contains(&self, outer: &Vec<u8>, inner: &Vec<u8>) -> (r: bool)
        ensures
            r == (nested_model(self).contains_key(outer@) && nested_model(self)[outer@].contains_key(
                inner@,
            )),
    {
        match self.tree.get(outer.as_slice()) {
            Some(sub) => sub.get(inner.as_slice()).is_some(),
            None => false,
        }
    }

    /// Relies on `AsHashTree::root_hash` for `RbTree`: the root hash is
    /// computed from the keys and leaf values alone.
    #[verifier::external_body]
    pub fn root_hash(&self) -> (h: [u8; 32])
        ensures
            h@ == nested_root_of(self),
    {
        self.tree.root_hash()
    }

    /// Relies on `RbTree::nested_witness`, `RbTree::witness`,
    /// `RbTree::keys`, `ic_certification::labeled` and serde_cbor: the
    /// witness tree for the queried path, labeled, serialized as CBOR
    /// without a self-describing tag; a function of the contents, the
    /// label and the path alone.
    #[verifier::external_body]
    pub fn witness_cbor(&self, label: &Vec<u8>, outer: &Vec<u8>, inner: Option<&Vec<u8>>) -> (w:
        Vec<u8>)
        ensures
            w@ == nested_witness_of(
                self,
                label@,
                outer@,
                match inner {
                    Some(i) => Some(i@),
                    None => None,
                },
            ),
    {
        let witness = match inner {
            Some(i) => self.tree.nested_witness(outer.as_slice(), |sub| sub.witness(i.as_slice())),
            None => self.tree.nested_witness(outer.as_slice(), |sub| sub.keys()),
        };
        let labeled_tree = ic_certification::labeled(label.as_slice(), witness);
        let mut data: Vec<u8> = vec![];
        let mut serializer = serde_cbor::Serializer::new(&mut data);
        labeled_tree.serialize(&mut serializer).unwrap();
        data
    }
}

} // verus!
