//! The authenticated store: an ordered collection of values, each mirrored
//! into the Merkle accumulator as the SHA-256 digest of its canonical byte
//! encoding, so that the accumulator's root digest commits to the exact
//! value sequence.

use vstd::prelude::*;

use vstd::std_specs::cmp::PartialEqSpec;

use crate::hashing::{sha256, sha256_of};
use crate::merkle::{committed_leaves, merkle_root_of, MerkleAccumulator};

verus! {

/// A value type admissible into the store: one with a canonical,
/// deterministic byte encoding. The encoding is the single contract a type
/// must satisfy to be storable; it must agree wherever the store is rebuilt,
/// or roots silently diverge.
pub trait ToBytes {
    /// The canonical byte encoding of the value.
    spec fn bytes_spec(&self) -> Seq<u8>;

    /// Produces the canonical byte encoding.
    fn to_bytes(&self) -> (r: Vec<u8>)
        ensures
            r@ == self.bytes_spec(),
    ;
}

impl ToBytes for u32 {
    open spec fn bytes_spec(&self) -> Seq<u8> {
        vstd::bytes::spec_u32_to_le_bytes(*self)
    }

    fn to_bytes(&self) -> (r: Vec<u8>) {
        vstd::bytes::u32_to_le_bytes(*self)
    }
}

impl ToBytes for String {
    open spec fn bytes_spec(&self) -> Seq<u8> {
        vstd::utf8::encode_utf8(self@)
    }

    fn to_bytes(&self) -> (r: Vec<u8>) {
        vstd::slice::slice_to_vec(self.as_str().as_bytes())
    }
}

/// The leaf digests of a value sequence: each value canonically encoded,
/// then hashed.
pub open spec fn leaf_digests<T: ToBytes>(values: Seq<T>) -> Seq<Seq<u8>> {
    values.map(|i: int, v: T| sha256_of(v.bytes_spec()))
}

/// The root digest a store with value sequence `values` exposes: absent when
/// the sequence is empty, and otherwise a function of the ordered leaf
/// digests alone — so of the values' encodings alone, regardless of the
/// history of inserts and deletes that produced the sequence.
pub open spec fn spec_root<T: ToBytes>(values: Seq<T>) -> Option<Seq<u8>> {
    if values.len() == 0 {
        None
    } else {
        Some(merkle_root_of(leaf_digests(values)))
    }
}

/// An ordered collection of values mirrored into a Merkle accumulator: at
/// all times the accumulator's leaves are exactly the encode-then-hash image
/// of the live value sequence.
pub struct Storage<T: ToBytes> {
    data: Vec<T>,
    merkle_tree: MerkleAccumulator,
}

impl<T: ToBytes> View for Storage<T> {
    type V = Seq<T>;

    closed spec fn view(&self) -> Seq<T> {
        self.data@
    }
}

impl<T: ToBytes> Storage<T> {
    /// The leaf count equals the number of live values and each leaf is the
    /// digest of the value at its position, whenever the store is not
    /// mid-mutation.
    #[verifier::type_invariant]
    spec fn wf(self) -> bool {
        &&& self.merkle_tree.well_formed()
        &&& committed_leaves(self.merkle_tree) == leaf_digests(self.data@)
    }
}

/// The SHA-256 digest of a value's canonical byte encoding: the leaf the
/// store keeps for it.
fn hash_value<T: ToBytes>(value: &T) -> (r: [u8; 32])
    ensures
        r@ == sha256_of(value.bytes_spec()),
{
    let encoded = value.to_bytes();
    sha256(&encoded)
}

/// The leaf digests of a whole value vector, in order.
fn hash_values<T: ToBytes>(values: &Vec<T>) -> (r: Vec<[u8; 32]>)
    ensures
        crate::merkle::digest_seqs(r@) == leaf_digests(values@),
{
    let mut r: Vec<[u8; 32]> = Vec::new();
    let mut i: usize = 0;
    while i < values.len()
        invariant
            i <= values@.len(),
            r@.len() == i,
            forall|j: int| 0 <= j < i ==> r@[j]@ == sha256_of(values@[j].bytes_spec()),
        decreases values@.len() - i,
    {
        let leaf = hash_value(&values[i]);
        r.push(leaf);
        i = i + 1;
    }
    proof {
        assert(crate::merkle::digest_seqs(r@) =~= leaf_digests(values@));
    }
    r
}

impl<T: Clone + PartialEq + ToBytes> Storage<T> {
    /// An empty store: no values, root absent.
    pub fn new() -> (s: Self)
        ensures
            s@ == Seq::<T>::empty(),
    {
        let data: Vec<T> = Vec::new();
        let merkle_tree = MerkleAccumulator::new();
        proof {
            assert(leaf_digests(data@) =~= committed_leaves(merkle_tree));
        }
        Self { data, merkle_tree }
    }

    /// Builds the store and its accumulator from an initial value sequence in
    /// one pass; in its final state it is equivalent to putting each value,
    /// in order, into an empty store.
    pub fn new_from_vec(data: Vec<T>) -> (s: Self)
        ensures
            s@ == data@,
    {
        let leaves = hash_values(&data);
        let merkle_tree = MerkleAccumulator::from_leaves(&leaves);
        Self { data, merkle_tree }
    }

    /// Whether `value` — compared by value equality, independent of position
    /// — is among the live entries.
    pub fn contains(&self, value: &T) -> (r: bool)
        ensures
            T::obeys_eq_spec() ==> (r <==> exists|i: int|
                0 <= i < self@.len() && self@[i].eq_spec(value)),
    {
        let mut i: usize = 0;
        while i < self.data.len()
            invariant
                i <= self.data@.len(),
                T::obeys_eq_spec() ==> forall|j: int| 0 <= j < i ==> !self.data@[j].eq_spec(
                    value,
                ),
            decreases self.data@.len() - i,
        {
            if self.data[i] == *value {
                proof {
                    if T::obeys_eq_spec() {
                        assert(self@[i as int].eq_spec(value));
                    }
                }
                return true;
            }
            i = i + 1;
        }
        false
    }

    /// Appends a value: afterwards the value sequence is the old one followed
    /// by `value`, and the accumulator holds its leaf digest last.
    pub fn put(&mut self, value: T)
        ensures
            final(self)@ == old(self)@.push(value),
    {
        proof {
            use_type_invariant(&*self);
        }
        let leaf = hash_value(&value);
        let mut taken = Self::new();
        core::mem::swap(self, &mut taken);
        let Storage { mut data, mut merkle_tree } = taken;
        data.push(value);
        merkle_tree.insert(leaf);
        proof {
            assert(committed_leaves(merkle_tree) =~= leaf_digests(data@));
        }
        let rebuilt = Self { data, merkle_tree };
        *self = rebuilt;
    }

    /// The value stored at `index`, or `None` when no such position exists.
    /// A pure read.
    pub fn get(&self, index: usize) -> (r: Option<&T>)
        ensures
            r.is_some() == (index < self@.len()),
            (r matches Some(v) ==> *v == self@[index as int]),
    {
        if index < self.data.len() {
            Some(&self.data[index])
        } else {
            None
        }
    }

    /// Removes the entry at `index` if present — a no-op, not an error, when
    /// absent — and rebuilds the accumulator from the surviving values in
    /// their original relative order. The most expensive operation: a full
    /// O(n) rehash of the remaining sequence.
    pub fn delete(&mut self, index: usize)
        ensures
            index < old(self)@.len() ==> final(self)@ == old(self)@.remove(index as int),
            index >= old(self)@.len() ==> final(self)@ == old(self)@,
    {
        proof {
            use_type_invariant(&*self);
        }
        if index < self.data.len() {
            let mut taken = Self::new();
            core::mem::swap(self, &mut taken);
            let Storage { mut data, .. } = taken;
            data.remove(index);
            let leaves = hash_values(&data);
            let merkle_tree = MerkleAccumulator::from_leaves(&leaves);
            let rebuilt = Self { data, merkle_tree };
            *self = rebuilt;
        }
    }

    /// The current root digest: absent when the store is empty, and otherwise
    /// determined by the value sequence alone. A pure read.
    pub fn get_root(&self) -> (r: Option<[u8; 32]>)
        ensures
            r.is_some() == (self@.len() > 0),
            (r matches Some(d) ==> Some(d@) == spec_root(self@)),
    {
        proof {
            use_type_invariant(&*self);
        }
        self.merkle_tree.root()
    }
}

/// Law (root determined by content alone): the root digest depends only on
/// the ordered canonical encodings of the values. Two stores whose value
/// sequences agree encoding-for-encoding expose equal roots, whatever the
/// value types and whatever history of inserts and deletes produced them.
pub proof fn lemma_root_depends_on_encodings_alone<A: ToBytes, B: ToBytes>(a: Seq<A>, b: Seq<B>)
    requires
        a.len() == b.len(),
        forall|i: int| 0 <= i < a.len() ==> a[i].bytes_spec() == b[i].bytes_spec(),
    ensures
        spec_root(a) == spec_root(b),
{
    assert(leaf_digests(a) =~= leaf_digests(b));
}

/// Law (delete rebuilds faithfully): after deleting position `i`, a store's
/// root equals the root of a store built fresh from the surviving values —
/// the prefix before `i` followed by the suffix after it — in their original
/// relative order.
pub proof fn lemma_delete_matches_fresh_build<T: ToBytes>(values: Seq<T>, i: int)
    requires
        0 <= i < values.len(),
    ensures
        spec_root(values.remove(i)) == spec_root(
            values.subrange(0, i) + values.subrange(i + 1, values.len() as int),
        ),
{
    assert(values.remove(i) =~= values.subrange(0, i) + values.subrange(
        i + 1,
        values.len() as int,
    ));
}

/// The value sequence left by putting each element of `values`, in order,
/// into an empty store.
pub open spec fn seq_of_puts<T>(values: Seq<T>) -> Seq<T>
    decreases values.len(),
{
    if values.len() == 0 {
        Seq::empty()
    } else {
        seq_of_puts(values.drop_last()).push(values.last())
    }
}

/// Law (bulk and incremental construction agree): putting each element of
/// `values`, in order, into an empty store leaves the same value sequence —
/// and so the same root — as building the store from `values` in one pass.
pub proof fn lemma_puts_match_bulk_build<T: ToBytes>(values: Seq<T>)
    ensures
        seq_of_puts(values) == values,
        spec_root(seq_of_puts(values)) == spec_root(values),
    decreases values.len(),
{
    if values.len() == 0 {
        assert(seq_of_puts(values) =~= values);
    } else {
        lemma_puts_match_bulk_build::<T>(values.drop_last());
        assert(seq_of_puts(values) =~= values);
    }
}

} // verus!
