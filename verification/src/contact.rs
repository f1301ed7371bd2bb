//! Contacts between bodies: what the narrow phase reports, what gameplay
//! may say about it, and the joints that come of it.
use vstd::prelude::*;
use crate::body::Body;
use crate::math::Vec3;

verus! {

/// Most contact points the narrow phase is asked for per pair.
pub const MAX_CONTACTS: usize = 100;

/// Friction coefficient given to every contact (50).
pub const CONTACT_FRICTION: i64 = 50_000_000;

/// One point at which two geometries touch.
#[derive(Clone, Copy, Debug, PartialEq, Eq, Structural)]
pub struct ContactPoint {
    pub position: Vec3,
    /// Surface normal, in world space.
    pub normal: Vec3,
    /// How far the geometries overlap.
    pub depth: i64,
    /// Friction coefficient of the surface.
    pub friction: i64,
}

/// A constraint that keeps two bodies apart at a contact point for one
/// tick. A side without a body is the fixed world.
#[derive(Clone, Copy, Debug, PartialEq, Eq, Structural)]
pub struct ContactJoint {
    pub first: Option<u64>,
    pub second: Option<u64>,
    pub contact: ContactPoint,
}

/// Gameplay code that wants to hear of contacts.
///
/// A handler is shown every contact point between two bodies and may
/// change the bodies and the contact. Answering `true` vetoes the contact:
/// the bodies touch for gameplay, but pass through each other.
///
/// A handler sees the two bodies, not the world. What it wants done to the
/// world, such as removing a body that was picked up, it has to note and
/// leave until the tick is over.
pub trait ContactHandler {
    fn handle(&mut self, first: &mut Body, second: &mut Body, contact: &mut ContactPoint) -> bool;
}

/// What became of one contact point.
pub struct ContactOutcome {
    /// The contact as the handlers left it.
    pub contact: ContactPoint,
    /// What each handler answered, in the order of registration.
    pub verdicts: Vec<bool>,
}

/// Some handler vetoed.
pub open spec fn any_veto(verdicts: Seq<bool>) -> bool {
    exists|i: int| 0 <= i < verdicts.len() && verdicts[i]
}

/// Whether some handler vetoed the contact.
pub fn is_vetoed(verdicts: &Vec<bool>) -> (r: bool)
    ensures
        r == any_veto(verdicts@),
{
    let mut i: usize = 0;
    while i < verdicts.len()
        invariant
            i <= verdicts.len(),
            forall|j: int| 0 <= j < i ==> !verdicts[j],
        decreases verdicts.len() - i,
    {
        if verdicts[i] {
            return true;
        }
        i += 1;
    }
    false
}

/// The joint that a contact leads to: none if any handler vetoed it, else
/// one between the two sides at the contact.
pub open spec fn joint_for(
    first: Option<u64>,
    second: Option<u64>,
    contact: ContactPoint,
    verdicts: Seq<bool>,
) -> Option<ContactJoint> {
    if any_veto(verdicts) {
        None
    } else {
        Some(ContactJoint { first, second, contact })
    }
}

/// Decides on the joint for one contact from what the handlers answered.
pub fn resolve_contact(
    first: Option<u64>,
    second: Option<u64>,
    contact: ContactPoint,
    verdicts: &Vec<bool>,
) -> (joint: Option<ContactJoint>)
    ensures
        joint == joint_for(first, second, contact, verdicts@),
{
    if is_vetoed(verdicts) {
        None
    } else {
        Some(ContactJoint { first, second, contact })
    }
}

/// The joints that a run of contact outcomes leads to, in order.
pub open spec fn joints_of(first: Option<u64>, second: Option<u64>, outcomes: Seq<ContactOutcome>)
    -> Seq<ContactJoint>
    decreases outcomes.len(),
{
    if outcomes.len() == 0 {
        Seq::empty()
    } else {
        let rest = joints_of(first, second, outcomes.drop_last());
        match joint_for(first, second, outcomes.last().contact, outcomes.last().verdicts@) {
            Some(j) => rest.push(j),
            None => rest,
        }
    }
}

/// A veto holds: where every contact of a pair was vetoed by some handler,
/// the pair gets no joint at all.
pub proof fn lemma_veto_suppresses_joints(
    first: Option<u64>,
    second: Option<u64>,
    outcomes: Seq<ContactOutcome>,
)
    requires
        forall|k: int| 0 <= k < outcomes.len() ==> any_veto(#[trigger] outcomes[k].verdicts@),
    ensures
        joints_of(first, second, outcomes).len() == 0,
    decreases outcomes.len(),
{
    if outcomes.len() > 0 {
        assert(any_veto(outcomes[outcomes.len() - 1].verdicts@));
        lemma_veto_suppresses_joints(first, second, outcomes.drop_last());
    }
}

/// Every joint goes back to a contact that no handler vetoed.
pub proof fn lemma_joints_are_unvetoed(
    first: Option<u64>,
    second: Option<u64>,
    outcomes: Seq<ContactOutcome>,
    j: int,
)
    requires
        0 <= j < joints_of(first, second, outcomes).len(),
    ensures
        exists|k: int|
            0 <= k < outcomes.len() && !any_veto(#[trigger] outcomes[k].verdicts@) && joints_of(
                first,
                second,
                outcomes,
            )[j] == (ContactJoint { first, second, contact: outcomes[k].contact }),
    decreases outcomes.len(),
{
    let rest = joints_of(first, second, outcomes.drop_last());
    let last = outcomes.len() - 1;
    if j < rest.len() {
        lemma_joints_are_unvetoed(first, second, outcomes.drop_last(), j);
        let k = choose|k: int|
            0 <= k < outcomes.drop_last().len() && !any_veto(
                #[trigger] outcomes.drop_last()[k].verdicts@,
            ) && rest[j] == (ContactJoint {
                first,
                second,
                contact: outcomes.drop_last()[k].contact,
            });
        assert(outcomes[k] == outcomes.drop_last()[k]);
        assert(!any_veto(outcomes[k].verdicts@));
    } else {
        assert(!any_veto(outcomes[last].verdicts@));
    }
}

} // verus!
