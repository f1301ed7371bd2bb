//! The identities of the bodies.
//!
//! Every body gets an identity when it is added to the world: the next
//! number that was never given out. Whoever refers to a body holds its
//! identity, never its place in the registry, which changes when bodies
//! before it are removed.
use vstd::prelude::*;

verus! {

/// The identities of a registry: those of the live bodies, in the order
/// the bodies were added, and the one that the next body gets.
pub struct Ledger {
    pub live: Seq<u64>,
    pub next: u64,
}

/// One step in the life of a registry.
pub enum RegistryOp {
    /// A body is added.
    Add,
    /// The body with this identity is removed, if it is live.
    Del(u64),
}

impl Ledger {
    /// No identity is live twice, and every live identity was given out
    /// before.
    pub open spec fn wf(self) -> bool {
        &&& forall|i: int, j: int|
            0 <= i < j < self.live.len() ==> #[trigger] self.live[i] != #[trigger] self.live[j]
        &&& forall|i: int| 0 <= i < self.live.len() ==> #[trigger] self.live[i] < self.next
    }

    /// The ledger after a body was added. Once every identity has been
    /// given out, no body is added.
    pub open spec fn added(self) -> Ledger {
        if self.next < u64::MAX {
            Ledger { live: self.live.push(self.next), next: (self.next + 1) as u64 }
        } else {
            self
        }
    }

    /// The ledger after the body with identity `id` was removed.
    pub open spec fn deleted(self, id: u64) -> Ledger {
        if self.live.contains(id) {
            Ledger { live: self.live.remove(self.live.index_of(id)), ..self }
        } else {
            self
        }
    }

    /// The ledger after one step.
    pub open spec fn applied(self, op: RegistryOp) -> Ledger {
        match op {
            RegistryOp::Add => self.added(),
            RegistryOp::Del(id) => self.deleted(id),
        }
    }

    /// The ledger after a run of steps.
    pub open spec fn run(self, ops: Seq<RegistryOp>) -> Ledger
        decreases ops.len(),
    {
        if ops.len() == 0 {
            self
        } else {
            self.run(ops.drop_last()).applied(ops.last())
        }
    }
}

/// Whatever bodies are added and removed, in whatever order: no two live
/// bodies share an identity, and no identity is given out twice. An
/// identity that is live after the run either was live before it, or is
/// none of those given out before the run.
pub proof fn lemma_ids_stay_unique(l: Ledger, ops: Seq<RegistryOp>)
    requires
        l.wf(),
    ensures
        l.run(ops).wf(),
        l.run(ops).next >= l.next,
        forall|i: int|
            0 <= i < l.run(ops).live.len() ==> l.live.contains(#[trigger] l.run(ops).live[i])
                || l.run(ops).live[i] >= l.next,
    decreases ops.len(),
{
    if ops.len() > 0 {
        let before = l.run(ops.drop_last());
        let after = before.applied(ops.last());
        lemma_ids_stay_unique(l, ops.drop_last());
        match ops.last() {
            RegistryOp::Add => {
                if before.next < u64::MAX {
                    assert forall|i: int| 0 <= i < after.live.len() implies l.live.contains(
                        #[trigger] after.live[i],
                    ) || after.live[i] >= l.next by {
                        if i < before.live.len() {
                            assert(after.live[i] == before.live[i]);
                        }
                    }
                }
            },
            RegistryOp::Del(id) => {
                if before.live.contains(id) {
                    let at = before.live.index_of(id);
                    assert forall|i: int| 0 <= i < after.live.len() implies #[trigger] after.live[i]
                        == before.live[if i < at {
                        i
                    } else {
                        i + 1
                    }] by {}
                    assert forall|i: int, j: int| 0 <= i < j < after.live.len() implies #[trigger] after.live[i]
                        != #[trigger] after.live[j] by {
                        let bi = if i < at {
                            i
                        } else {
                            i + 1
                        };
                        let bj = if j < at {
                            j
                        } else {
                            j + 1
                        };
                        assert(before.live[bi] != before.live[bj]);
                    }
                    assert forall|i: int| 0 <= i < after.live.len() implies (l.live.contains(
                        #[trigger] after.live[i],
                    ) || after.live[i] >= l.next) && after.live[i] < after.next by {
                        let bi = if i < at {
                            i
                        } else {
                            i + 1
                        };
                        assert(after.live[i] == before.live[bi]);
                    }
                }
            },
        }
    }
}

} // verus!
