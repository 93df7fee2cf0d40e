//! The registry itself: an append-only store of bindings, the write rule
//! that admits a new binding, and the read rule that discloses one.

use vstd::prelude::*;

use crate::model::spec_anchor;
use crate::model::spec_verify;
use crate::types::Fingerprint;
use crate::types::Identity;
use crate::types::RegistryError;

verus! {

/// A recorded (fingerprint, identity) pair: the fact that this content
/// was anchored by this principal.
#[derive(Clone, Copy)]
struct Binding {
    fingerprint: Fingerprint,
    identity: Identity,
}

/// The existence-anchoring registry: a partial map from fingerprint to
/// the identity that anchored it, held in an in-memory store with one
/// entry per fingerprint.
pub struct Anchor {
    entries: Vec<Binding>,
}

/// No two entries record the same fingerprint.
spec fn keys_unique(s: Seq<Binding>) -> bool {
    forall|j: int, k: int|
        0 <= j < s.len() && 0 <= k < s.len() && j != k ==> s[j].fingerprint@ != s[k].fingerprint@
}

/// The mapping the entries record, later entries shadowing earlier ones
/// (under `keys_unique` there is nothing to shadow).
spec fn map_of(s: Seq<Binding>) -> Map<Seq<u8>, Seq<u8>>
    decreases s.len(),
{
    if s.len() == 0 {
        Map::empty()
    } else {
        map_of(s.drop_last()).insert(s.last().fingerprint@, s.last().identity@)
    }
}

proof fn lemma_keys_unique_drop_last(s: Seq<Binding>)
    requires
        keys_unique(s),
        s.len() > 0,
    ensures
        keys_unique(s.drop_last()),
{
    assert forall|j: int, k: int|
        0 <= j < s.drop_last().len() && 0 <= k < s.drop_last().len() && j != k implies s.drop_last()[j].fingerprint@
        != s.drop_last()[k].fingerprint@ by {
        assert(s.drop_last()[j] == s[j]);
        assert(s.drop_last()[k] == s[k]);
    }
}

/// A fingerprint no entry records is absent from the recorded mapping.
proof fn lemma_map_of_absent(s: Seq<Binding>, f: Seq<u8>)
    requires
        forall|j: int| 0 <= j < s.len() ==> s[j].fingerprint@ != f,
    ensures
        !map_of(s).dom().contains(f),
    decreases s.len(),
{
    if s.len() > 0 {
        assert forall|j: int| 0 <= j < s.drop_last().len() implies s.drop_last()[j].fingerprint@
            != f by {
            assert(s.drop_last()[j] == s[j]);
        }
        lemma_map_of_absent(s.drop_last(), f);
    }
}

/// With unique keys, the recorded mapping binds each entry's fingerprint
/// to that entry's identity.
proof fn lemma_map_of_present(s: Seq<Binding>, i: int)
    requires
        keys_unique(s),
        0 <= i < s.len(),
    ensures
        map_of(s).dom().contains(s[i].fingerprint@),
        map_of(s)[s[i].fingerprint@] == s[i].identity@,
    decreases s.len(),
{
    if i < s.len() - 1 {
        lemma_keys_unique_drop_last(s);
        assert(s.drop_last()[i] == s[i]);
        lemma_map_of_present(s.drop_last(), i);
        assert(s.last().fingerprint@ != s[i].fingerprint@);
    }
}

/// Replacing the one entry that records a fingerprint rewrites exactly
/// that fingerprint's binding in the recorded mapping.
proof fn lemma_map_of_update(s: Seq<Binding>, i: int, b: Binding)
    requires
        keys_unique(s),
        0 <= i < s.len(),
        s[i].fingerprint@ == b.fingerprint@,
    ensures
        map_of(s.update(i, b)) == map_of(s).insert(b.fingerprint@, b.identity@),
    decreases s.len(),
{
    let t = s.update(i, b);
    if i == s.len() - 1 {
        assert(t.drop_last() =~= s.drop_last());
        assert(t.last() == b);
        assert(map_of(t) =~= map_of(s).insert(b.fingerprint@, b.identity@));
    } else {
        lemma_keys_unique_drop_last(s);
        assert(s.drop_last()[i] == s[i]);
        assert(t.drop_last() =~= s.drop_last().update(i, b));
        lemma_map_of_update(s.drop_last(), i, b);
        assert(t.last() == s.last());
        assert(s.last().fingerprint@ != b.fingerprint@);
        assert(map_of(t) =~= map_of(s).insert(b.fingerprint@, b.identity@));
    }
}

/// Appending an entry for a fingerprint adds exactly that fingerprint's
/// binding to the recorded mapping.
proof fn lemma_map_of_push(s: Seq<Binding>, b: Binding)
    ensures
        map_of(s.push(b)) == map_of(s).insert(b.fingerprint@, b.identity@),
{
    assert(s.push(b).drop_last() =~= s);
    assert(s.push(b).last() == b);
    assert(map_of(s.push(b)) =~= map_of(s).insert(b.fingerprint@, b.identity@));
}

/// The index of the entry recording this fingerprint, if any.
fn find_index(entries: &Vec<Binding>, fingerprint: &Fingerprint) -> (r: Option<usize>)
    ensures
        match r {
            Some(i) => i < entries@.len() && entries@[i as int].fingerprint@ == fingerprint@,
            None => forall|j: int| 0 <= j < entries@.len() ==> entries@[j].fingerprint@ != fingerprint@,
        },
{
    let mut i: usize = 0;
    while i < entries.len()
        invariant
            i <= entries@.len(),
            forall|j: int| 0 <= j < i ==> entries@[j].fingerprint@ != fingerprint@,
        decreases entries@.len() - i,
    {
        if entries[i].fingerprint.matches(fingerprint) {
            return Some(i);
        }
        i = i + 1;
    }
    None
}

/// The write rule, applied per fingerprint: given the owner currently
/// recorded for it and the caller the environment resolved, decide which
/// identity to record. Under the overwrite policy the registry keeps
/// (last writer wins) the current owner is disregarded and the resolved
/// caller is recorded; a call whose identity the environment failed to
/// resolve is refused outright.
pub fn write_rule(_current: Option<Identity>, caller: Option<Identity>) -> (r: Result<
    Identity,
    RegistryError,
>)
    ensures
        match caller {
            Some(identity) => r == Ok::<Identity, RegistryError>(identity),
            None => r == Err::<Identity, RegistryError>(RegistryError::IdentityUnresolved),
        },
{
    match caller {
        Some(identity) => Ok(identity),
        None => Err(RegistryError::IdentityUnresolved),
    }
}

impl View for Anchor {
    type V = Map<Seq<u8>, Seq<u8>>;

    /// The mapping the registry records, from fingerprint bytes to the
    /// bytes of the identity that anchored them.
    closed spec fn view(&self) -> Map<Seq<u8>, Seq<u8>> {
        map_of(self.entries@)
    }
}

impl Anchor {
    #[verifier::type_invariant]
    spec fn wf(self) -> bool {
        keys_unique(self.entries@)
    }

    /// A registry with no bindings at all, the state at first
    /// initialization.
    pub fn new() -> (r: Anchor)
        ensures
            r@ == Map::<Seq<u8>, Seq<u8>>::empty(),
    {
        let registry = Anchor { entries: Vec::new() };
        proof {
            assert(registry@ =~= Map::<Seq<u8>, Seq<u8>>::empty());
        }
        registry
    }

    /// Records the binding (fingerprint, resolved caller): the one state
    /// mutation in the system. `caller` is the identity the environment
    /// resolved for this call, or absence where it could not; the call
    /// fails rather than proceed without one. On success the mapping is
    /// exactly the old mapping with this one binding written.
    pub fn anchor(&mut self, fingerprint: Fingerprint, caller: Option<Identity>) -> (r: Result<
        (),
        RegistryError,
    >)
        ensures
            match caller {
                Some(identity) => r is Ok && final(self)@ == spec_anchor(
                    old(self)@,
                    fingerprint@,
                    identity@,
                ),
                None => r == Err::<(), RegistryError>(RegistryError::IdentityUnresolved)
                    && final(self)@ == old(self)@,
            },
    {
        proof {
            use_type_invariant(&*self);
        }
        let found = find_index(&self.entries, &fingerprint);
        let current = match found {
            Some(i) => Some(self.entries[i].identity),
            None => None,
        };
        match write_rule(current, caller) {
            Err(e) => Err(e),
            Ok(identity) => {
                let ghost before = self.entries@;
                let mut entries: Vec<Binding> = Vec::new();
                core::mem::swap(&mut entries, &mut self.entries);
                let binding = Binding { fingerprint, identity };
                match found {
                    Some(i) => {
                        entries[i] = binding;
                        proof {
                            lemma_map_of_update(before, i as int, binding);
                            assert forall|j: int, k: int|
                                0 <= j < entries@.len() && 0 <= k < entries@.len() && j
                                    != k implies entries@[j].fingerprint@
                                != entries@[k].fingerprint@ by {
                                assert(before[j].fingerprint@ != before[k].fingerprint@);
                            }
                        }
                    },
                    None => {
                        entries.push(binding);
                        proof {
                            lemma_map_of_push(before, binding);
                            assert forall|j: int, k: int|
                                0 <= j < entries@.len() && 0 <= k < entries@.len() && j
                                    != k implies entries@[j].fingerprint@
                                != entries@[k].fingerprint@ by {
                                if j < before.len() && k < before.len() {
                                    assert(before[j].fingerprint@ != before[k].fingerprint@);
                                }
                            }
                        }
                    },
                }
                self.entries = entries;
                Ok(())
            },
        }
    }

    /// The read rule: a pure lookup that discloses the recorded owner of
    /// a fingerprint, or an explicit absence marker where none was ever
    /// anchored. Takes the registry by shared reference: no state is
    /// mutated and no caller identity is consulted.
    pub fn verify(&self, fingerprint: Fingerprint) -> (r: Option<Identity>)
        ensures
            r.deep_view() == spec_verify(self@, fingerprint@),
    {
        proof {
            use_type_invariant(&*self);
        }
        match find_index(&self.entries, &fingerprint) {
            Some(i) => {
                proof {
                    lemma_map_of_present(self.entries@, i as int);
                }
                Some(self.entries[i].identity)
            },
            None => {
                proof {
                    lemma_map_of_absent(self.entries@, fingerprint@);
                }
                None
            },
        }
    }
}

} // verus!
