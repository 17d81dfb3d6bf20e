//! The incremental Merkle accumulator: a binary hash tree over an ordered
//! sequence of 32-byte leaf digests, exposing a single root digest that
//! summarizes the whole sequence. The tree itself is `rs_merkle`'s; Verus
//! sees it only through the spec functions below.

use vstd::prelude::*;

verus! {

/// A binary hash tree over leaf digests, built by `rs_merkle::MerkleTree`
/// with its SHA-256 node hasher. Leaves are first appended to a pending set
/// and take effect — including on the root — once committed.
#[verifier::external_body]
pub struct MerkleAccumulator {
    tree: rs_merkle::MerkleTree<rs_merkle::algorithms::Sha256>,
}

/// The leaf digests committed to the accumulator, in insertion order.
pub uninterp spec fn committed_leaves(t: MerkleAccumulator) -> Seq<Seq<u8>>;

/// The leaf digests appended since the last commit, in insertion order.
pub uninterp spec fn pending_leaves(t: MerkleAccumulator) -> Seq<Seq<u8>>;

/// The root digest that `rs_merkle` derives from a committed leaf sequence
/// by pairwise hashing bottom-up: a function of that sequence alone.
pub uninterp spec fn merkle_root_of(leaves: Seq<Seq<u8>>) -> Seq<u8>;

/// The digest sequences of a vector of 32-byte leaves, in order.
pub open spec fn digest_seqs(leaves: Seq<[u8; 32]>) -> Seq<Seq<u8>> {
    leaves.map(|i: int, l: [u8; 32]| l@)
}

impl MerkleAccumulator {
    /// An accumulator with no pending leaves, so that its root reflects every
    /// leaf inserted so far.
    pub open spec fn well_formed(self) -> bool {
        pending_leaves(self) == Seq::<Seq<u8>>::empty()
    }

    /// Relies on `rs_merkle::MerkleTree::new`: a tree with no leaves,
    /// committed or pending.
    #[verifier::external_body]
    fn raw_new() -> (t: Self)
        ensures
            committed_leaves(t) == Seq::<Seq<u8>>::empty(),
            pending_leaves(t) == Seq::<Seq<u8>>::empty(),
    {
        MerkleAccumulator { tree: rs_merkle::MerkleTree::new() }
    }

    /// Relies on `rs_merkle::MerkleTree::from_leaves`: a tree whose committed
    /// leaves are exactly the given digests, in order, with nothing pending.
    #[verifier::external_body]
    fn raw_from_leaves(leaves: &Vec<[u8; 32]>) -> (t: Self)
        ensures
            committed_leaves(t) == digest_seqs(leaves@),
            pending_leaves(t) == Seq::<Seq<u8>>::empty(),
    {
        MerkleAccumulator { tree: rs_merkle::MerkleTree::from_leaves(leaves.as_slice()) }
    }

    /// Relies on `rs_merkle::MerkleTree::insert`: appends one leaf digest to
    /// the pending set; the committed leaves are untouched.
    #[verifier::external_body]
    fn raw_insert(&mut self, leaf: [u8; 32])
        ensures
            committed_leaves(*final(self)) == committed_leaves(*old(self)),
            pending_leaves(*final(self)) == pending_leaves(*old(self)).push(leaf@),
    {
        self.tree.insert(leaf);
    }

    /// Relies on `rs_merkle::MerkleTree::commit`: moves the pending leaves,
    /// in order, after the committed ones.
    #[verifier::external_body]
    fn raw_commit(&mut self)
        ensures
            committed_leaves(*final(self)) == committed_leaves(*old(self)) + pending_leaves(
                *old(self),
            ),
            pending_leaves(*final(self)) == Seq::<Seq<u8>>::empty(),
    {
        self.tree.commit();
    }

    /// Relies on `rs_merkle::MerkleTree::root`: the root digest of the
    /// committed tree, present exactly when a committed leaf exists, and a
    /// function of the committed leaf sequence alone.
    #[verifier::external_body]
    fn raw_root(&self) -> (r: Option<[u8; 32]>)
        ensures
            r.is_some() == (committed_leaves(*self).len() > 0),
            (r matches Some(d) ==> d@ == merkle_root_of(committed_leaves(*self))),
    {
        self.tree.root()
    }

    /// An empty accumulator: no leaves, root absent.
    pub fn new() -> (t: Self)
        ensures
            t.well_formed(),
            committed_leaves(t) == Seq::<Seq<u8>>::empty(),
    {
        Self::raw_new()
    }

    /// Builds the tree bottom-up from the whole leaf sequence in one pass;
    /// the root is defined exactly when `leaves` is non-empty.
    pub fn from_leaves(leaves: &Vec<[u8; 32]>) -> (t: Self)
        ensures
            t.well_formed(),
            committed_leaves(t) == digest_seqs(leaves@),
    {
        Self::raw_from_leaves(leaves)
    }

    /// Appends one leaf and refreshes the root: the committed leaves become
    /// the old ones followed by the new leaf, exactly as if the tree had been
    /// rebuilt from that full sequence.
    pub fn insert(&mut self, leaf: [u8; 32])
        requires
            old(self).well_formed(),
        ensures
            final(self).well_formed(),
            committed_leaves(*final(self)) == committed_leaves(*old(self)).push(leaf@),
    {
        self.raw_insert(leaf);
        self.raw_commit();
        proof {
            assert(committed_leaves(*self) =~= committed_leaves(*old(self)).push(leaf@));
        }
    }

    /// The current root digest, or `None` when no leaves exist. A pure read.
    pub fn root(&self) -> (r: Option<[u8; 32]>)
        ensures
            r.is_some() == (committed_leaves(*self).len() > 0),
            (r matches Some(d) ==> d@ == merkle_root_of(committed_leaves(*self))),
    {
        self.raw_root()
    }
}

} // verus!
