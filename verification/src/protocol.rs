//! The membership-proof protocol around the store: the host side assembles
//! the private input (the full value sequence plus a designated target), and
//! the guest side deterministically rebuilds the store from that input,
//! checks that the target is a member, and yields the root digest as the
//! sole value to be published.

use vstd::prelude::*;

use crate::storage::{spec_root, Storage};

verus! {

/// Host side: assembles the private input handed to the proving engine — the
/// prover's values followed by the designated target, so that the target is
/// certainly a member of the sequence the guest rebuilds.
pub fn build_witness(values: Vec<u32>, target: u32) -> (r: Vec<u32>)
    ensures
        r@ == values@.push(target),
        r@.contains(target),
{
    let mut r = values;
    r.push(target);
    proof {
        assert(r@.last() == target);
    }
    r
}

/// Guest side: the deterministic membership computation. Rebuilds a store
/// from the private input in one bulk pass and returns the root digest to be
/// committed as the only public output. Returns `None` exactly when the
/// computation must abort with no output: when the target is not a member of
/// the input, or the input is empty and so has no root.
pub fn membership_root(input: Vec<u32>, must_contain: u32) -> (r: Option<[u8; 32]>)
    ensures
        r.is_some() <==> input@.len() > 0 && input@.contains(must_contain),
        (r matches Some(d) ==> Some(d@) == spec_root(input@)),
{
    let ghost input_view = input@;
    let storage = Storage::new_from_vec(input);
    if !storage.contains(&must_contain) {
        proof {
            assert(!input_view.contains(must_contain));
        }
        return None;
    }
    proof {
        assert(input_view.contains(must_contain));
    }
    storage.get_root()
}

} // verus!
