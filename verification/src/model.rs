//! The registry's mathematical model and the laws that hold of it.
//!
//! The state is a partial map from fingerprint bytes to identity bytes.
//! `spec_anchor` is the write rule (last writer wins) and `spec_verify`
//! the read rule; the executable registry's contracts are stated over
//! these two functions, so every law proved here carries over to any
//! sequence of calls on the executable registry.

use vstd::prelude::*;

verus! {

/// The write rule: anchoring binds the fingerprint to the resolved
/// caller, overwriting any owner recorded before (last writer wins).
pub open spec fn spec_anchor(
    m: Map<Seq<u8>, Seq<u8>>,
    fingerprint: Seq<u8>,
    identity: Seq<u8>,
) -> Map<Seq<u8>, Seq<u8>> {
    m.insert(fingerprint, identity)
}

/// The read rule: the recorded owner if the fingerprint is bound,
/// an explicit absence marker otherwise.
pub open spec fn spec_verify(m: Map<Seq<u8>, Seq<u8>>, fingerprint: Seq<u8>) -> Option<Seq<u8>> {
    if m.dom().contains(fingerprint) {
        Some(m[fingerprint])
    } else {
        None
    }
}

/// The state reached from the empty registry by a history of anchor
/// calls, each a (fingerprint, identity) pair, applied in order.
pub open spec fn replay(ops: Seq<(Seq<u8>, Seq<u8>)>) -> Map<Seq<u8>, Seq<u8>>
    decreases ops.len(),
{
    if ops.len() == 0 {
        Map::empty()
    } else {
        spec_anchor(replay(ops.drop_last()), ops.last().0, ops.last().1)
    }
}

/// A fingerprint that no anchor call in the registry's history named
/// verifies to absence.
pub proof fn lemma_unanchored_is_absent(ops: Seq<(Seq<u8>, Seq<u8>)>, f: Seq<u8>)
    requires
        forall|j: int| 0 <= j < ops.len() ==> ops[j].0 != f,
    ensures
        spec_verify(replay(ops), f) is None,
    decreases ops.len(),
{
    if ops.len() > 0 {
        assert forall|j: int| 0 <= j < ops.drop_last().len() implies ops.drop_last()[j].0 != f by {
            assert(ops.drop_last()[j] == ops[j]);
        }
        lemma_unanchored_is_absent(ops.drop_last(), f);
    }
}

/// After anchoring a fingerprint under an identity, verifying that
/// fingerprint discloses exactly that identity.
pub proof fn lemma_anchored_is_bound(m: Map<Seq<u8>, Seq<u8>>, f: Seq<u8>, i: Seq<u8>)
    ensures
        spec_verify(spec_anchor(m, f, i), f) == Some(i),
{
}

/// Anchoring the same fingerprint twice under the same identity leaves
/// the registry exactly as one anchor does, and the owner unchanged.
pub proof fn lemma_anchor_idempotent(m: Map<Seq<u8>, Seq<u8>>, f: Seq<u8>, i: Seq<u8>)
    ensures
        spec_anchor(spec_anchor(m, f, i), f, i) == spec_anchor(m, f, i),
        spec_verify(spec_anchor(spec_anchor(m, f, i), f, i), f) == Some(i),
{
    assert(spec_anchor(spec_anchor(m, f, i), f, i) =~= spec_anchor(m, f, i));
}

/// The overwrite policy: anchoring under a first identity and then a
/// second leaves the second as the recorded owner.
pub proof fn lemma_overwrite_last_writer_wins(
    m: Map<Seq<u8>, Seq<u8>>,
    f: Seq<u8>,
    first: Seq<u8>,
    second: Seq<u8>,
)
    ensures
        spec_verify(spec_anchor(spec_anchor(m, f, first), f, second), f) == Some(second),
{
}

/// Anchoring one fingerprint leaves the reading of every other
/// fingerprint untouched: keys do not contaminate one another.
pub proof fn lemma_anchor_preserves_others(
    m: Map<Seq<u8>, Seq<u8>>,
    f: Seq<u8>,
    other: Seq<u8>,
    i: Seq<u8>,
)
    requires
        other != f,
    ensures
        spec_verify(spec_anchor(m, f, i), other) == spec_verify(m, other),
{
}

} // verus!
