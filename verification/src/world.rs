//! The world: the registry of bodies, the contact pipeline, the terrain and
//! the clock that drives them in fixed ticks.
//!
//! The rigid-body engine itself is not part of this crate. The host owns
//! it and calls into the world at fixed points of every frame:
//!
//! 1. [`World::step`] takes the frame time and says how many ticks are due.
//! 2. For each due tick, [`World::tick`] updates the terrain; the host then
//!    lets the engine find colliding pairs and reports each to
//!    [`World::near_callback`], creates the joints that collect in the
//!    world, advances the engine by one tick, and calls
//!    [`World::end_tick`].
//! 3. [`World::resync_mesh`] brings the terrain mesh up to date.
use std::rc::Rc;
use vstd::prelude::*;
use crate::body::Body;
use crate::body::BodyConfig;
use crate::body::BodyShape;
use crate::clock::leftover_after;
use crate::clock::ticks_due;
use crate::contact::CONTACT_FRICTION;
use crate::contact::ContactHandler;
use crate::contact::ContactJoint;
use crate::contact::ContactOutcome;
use crate::contact::ContactPoint;
use crate::contact::joints_of;
use crate::contact::MAX_CONTACTS;
use crate::contact::resolve_contact;
use crate::grid::Grid;
use crate::grid::MAX_SCALE;
use crate::heightmap::HeightMap;
use crate::math::GRAVITY;
use crate::math::PHYS_DT;
use crate::math::Vec3;
use crate::mesh::is_dirty_runs;
use crate::mesh::is_landscape;
use crate::mesh::Mesh;
use crate::registry::Ledger;
use crate::terrain::Terrain;

verus! {

/// Share of its velocity that a body loses per tick by default (0.0015).
pub const DAMPING: i64 = 1_500;

/// What a world is built with.
#[derive(Clone, Copy, Debug, PartialEq, Eq, Structural)]
pub struct WorldConfig {
    /// Size of a terrain cell, in world units.
    pub scale: i64,
    /// Downward acceleration.
    pub gravity: i64,
    /// Length of a tick, in microseconds.
    pub fixed_dt: u64,
    /// Share of its linear velocity a body loses per tick.
    pub linear_damping: i64,
    /// Share of its angular velocity a body loses per tick.
    pub angular_damping: i64,
}

impl WorldConfig {
    /// The cell size is supported and ticks take time.
    pub open spec fn valid(self) -> bool {
        0 < self.scale <= MAX_SCALE && self.fixed_dt > 0
    }

    /// The standard configuration for cells of size `scale`.
    pub open spec fn standard(scale: i64) -> WorldConfig {
        WorldConfig {
            scale,
            gravity: GRAVITY,
            fixed_dt: PHYS_DT,
            linear_damping: DAMPING,
            angular_damping: DAMPING,
        }
    }

    /// Standard gravity, ticks of a hundredth of a second, and damping of
    /// 0.0015 on both velocities.
    pub fn with_scale(scale: i64) -> (c: WorldConfig)
        ensures
            c == WorldConfig::standard(scale),
    {
        WorldConfig {
            scale,
            gravity: GRAVITY,
            fixed_dt: PHYS_DT,
            linear_damping: DAMPING,
            angular_damping: DAMPING,
        }
    }

    /// Checks that the configuration is valid.
    pub fn is_valid(&self) -> (ok: bool)
        ensures
            ok == self.valid(),
    {
        0 < self.scale && self.scale <= MAX_SCALE && self.fixed_dt > 0
    }
}

/// Tuning values of the player's effect on the terrain, which the host
/// reads from its settings and hands in with every frame.
///
/// The world notes them with the frame. The disturbance that the player
/// causes follows one fixed law, which does not depend on them.
#[derive(Clone, Copy, Debug, PartialEq, Eq, Structural)]
pub struct TerrainParams {
    pub power: i64,
    pub damping: i64,
    pub frequency: i64,
}

/// Why the world refused a request.
#[derive(Clone, Copy, Debug, PartialEq, Eq, Structural)]
pub enum WorldError {
    /// The configuration is not valid.
    InvalidConfig,
    /// Every identity has been given out.
    IdsExhausted,
    /// The source image of the terrain is not well formed.
    BadHeightmap,
}

/// To whom the two geometries of a colliding pair belong.
#[derive(Clone, Copy, Debug, PartialEq, Eq, Structural)]
pub enum PairOwners {
    /// At least one geometry belongs to no body.
    Unowned,
    /// Both geometries belong to one body.
    SelfPair,
    /// The geometries belong to the bodies at these two different places
    /// of the registry.
    Distinct { first: usize, second: usize },
}

/// The contact as the pipeline hands it to the handlers: with the friction
/// of every contact.
pub open spec fn prepared(point: ContactPoint) -> ContactPoint {
    ContactPoint { friction: CONTACT_FRICTION, ..point }
}

/// The mathematical picture of a world.
pub struct WorldState<H> {
    pub config: WorldConfig,
    /// The live bodies, in the order they were added.
    pub bodies: Seq<Body>,
    /// The identity the next body gets.
    pub next_id: u64,
    /// Time taken in but not yet simulated, in microseconds.
    pub leftover_dt: u64,
    /// Ticks that the last step asked for and that were not run yet.
    pub due_ticks: u64,
    /// Where the player was when the last step began.
    pub frame_position: Vec3,
    /// Whether the player was acting when the last step began.
    pub frame_action: bool,
    /// The tuning values that came with the last step.
    pub frame_params: TerrainParams,
    /// The contact handlers, in the order they were registered.
    pub handlers: Seq<H>,
    /// The contact joints of the tick under way.
    pub joints: Seq<ContactJoint>,
    pub terrain: Grid,
    /// The render mesh of the terrain, once there is a terrain.
    pub landscape: Option<Mesh>,
}

impl<H> WorldState<H> {
    /// The world as it is built: no bodies, no handlers, no terrain yet, no
    /// time taken in, the player at the origin and idle.
    pub open spec fn fresh(config: WorldConfig) -> WorldState<H> {
        WorldState {
            config,
            bodies: Seq::empty(),
            next_id: 0,
            leftover_dt: 0,
            due_ticks: 0,
            frame_position: Vec3 { x: 0, y: 0, z: 0 },
            frame_action: false,
            frame_params: TerrainParams { power: 0, damping: 0, frequency: 0 },
            handlers: Seq::empty(),
            joints: Seq::empty(),
            terrain: Grid::empty(config.scale as int),
            landscape: None,
        }
    }

    /// The identities of the live bodies.
    pub open spec fn ids(self) -> Seq<u64> {
        Seq::new(self.bodies.len(), |i: int| self.bodies[i].id_spec())
    }

    /// The identities of the registry.
    pub open spec fn ledger(self) -> Ledger {
        Ledger { live: self.ids(), next: self.next_id }
    }

    /// A body with identity `id` is live.
    pub open spec fn contains(self, id: u64) -> bool {
        exists|i: int| 0 <= i < self.bodies.len() && #[trigger] self.bodies[i].id_spec() == id
    }

    /// Where the body with identity `id` stands in the registry.
    pub open spec fn index_of(self, id: u64) -> int {
        choose|i: int| 0 <= i < self.bodies.len() && #[trigger] self.bodies[i].id_spec() == id
    }

    /// No two live bodies share an identity, and every identity in use was
    /// given out before; less than a tick of time is left over; the terrain
    /// is well formed and its mesh has a vertex for every entry of the
    /// vertex table.
    pub open spec fn wf(self) -> bool {
        &&& forall|i: int, j: int|
            0 <= i < j < self.bodies.len() ==> #[trigger] self.bodies[i].id_spec()
                != #[trigger] self.bodies[j].id_spec()
        &&& forall|i: int|
            0 <= i < self.bodies.len() ==> #[trigger] self.bodies[i].id_spec() < self.next_id
        &&& self.config.valid()
        &&& self.leftover_dt < self.config.fixed_dt
        &&& self.terrain.wf()
        &&& self.terrain.scale == self.config.scale
        &&& self.landscape matches Some(m) ==> m.wf() && m.mirror().is_some() && m.count_spec()
            == self.terrain.vertex_cell.len()
    }
}

/// The simulation world.
pub struct World<H: ContactHandler> {
    config: WorldConfig,
    bodies: Vec<Body>,
    body_id_counter: u64,
    leftover_dt: u64,
    due_ticks: u64,
    frame_position: Vec3,
    frame_action: bool,
    frame_params: TerrainParams,
    contact_handlers: Vec<H>,
    contact_joints: Vec<ContactJoint>,
    terrain: Terrain,
    landscape_mesh: Option<Mesh>,
}

impl<H: ContactHandler> View for World<H> {
    type V = WorldState<H>;

    closed spec fn view(&self) -> WorldState<H> {
        WorldState {
            config: self.config,
            bodies: self.bodies@,
            next_id: self.body_id_counter,
            leftover_dt: self.leftover_dt,
            due_ticks: self.due_ticks,
            frame_position: self.frame_position,
            frame_action: self.frame_action,
            frame_params: self.frame_params,
            handlers: self.contact_handlers@,
            joints: self.contact_joints@,
            terrain: self.terrain@,
            landscape: self.landscape_mesh,
        }
    }
}

impl<H: ContactHandler> World<H> {
    /// The invariant of a world.
    pub open spec fn wf(&self) -> bool {
        self@.wf()
    }

    /// An empty world with cells of size `scale` and the standard
    /// constants.
    pub fn new(scale: i64) -> (r: Result<World<H>, WorldError>)
        ensures
            r.is_ok() <==> 0 < scale <= MAX_SCALE,
            r matches Ok(w) ==> w.wf() && w@ == WorldState::<H>::fresh(WorldConfig::standard(scale)),
            r matches Err(e) ==> e == WorldError::InvalidConfig,
    {
        World::with_config(WorldConfig::with_scale(scale))
    }

    /// An empty world: no bodies, no handlers, no terrain yet, no time
    /// taken in.
    pub fn with_config(config: WorldConfig) -> (r: Result<World<H>, WorldError>)
        ensures
            r.is_ok() <==> config.valid(),
            r matches Ok(w) ==> w.wf() && w@ == WorldState::<H>::fresh(config),
            r matches Err(e) ==> e == WorldError::InvalidConfig,
    {
        if !config.is_valid() {
            return Err(WorldError::InvalidConfig);
        }
        let terrain = Terrain::empty(config.scale);
        let w = World {
            config,
            bodies: Vec::new(),
            body_id_counter: 0,
            leftover_dt: 0,
            due_ticks: 0,
            frame_position: Vec3 { x: 0, y: 0, z: 0 },
            frame_action: false,
            frame_params: TerrainParams { power: 0, damping: 0, frequency: 0 },
            contact_handlers: Vec::new(),
            contact_joints: Vec::new(),
            terrain,
            landscape_mesh: None,
        };
        proof {
            assert(w@.terrain.cells() == 0);
            assert(w@.bodies =~= Seq::empty());
            assert(w@.handlers =~= Seq::empty());
            assert(w@.joints =~= Seq::empty());
        }
        Ok(w)
    }

    /// What the world was built with.
    pub fn config(&self) -> (c: &WorldConfig)
        ensures
            *c == self@.config,
    {
        &self.config
    }

    /// The live bodies, in the order they were added.
    pub fn bodies(&self) -> (b: &Vec<Body>)
        ensures
            b@ == self@.bodies,
    {
        &self.bodies
    }

    /// Registers a contact handler, behind those already registered.
    pub fn add_contact_handler(&mut self, handler: H)
        ensures
            final(self)@ == (WorldState {
                handlers: old(self)@.handlers.push(handler),
                ..old(self)@
            }),
    {
        self.contact_handlers.push(handler);
    }

    /// Where the body with identity `id` stands in the registry, if it is
    /// live.
    pub fn find_body(&self, id: u64) -> (r: Option<usize>)
        ensures
            r.is_some() <==> self@.contains(id),
            r matches Some(i) ==> i < self@.bodies.len() && self@.bodies[i as int].id_spec() == id
                && forall|j: int| 0 <= j < i ==> (#[trigger] self@.bodies[j]).id_spec() != id,
    {
        let mut i: usize = 0;
        while i < self.bodies.len()
            invariant
                i <= self.bodies.len(),
                forall|j: int| 0 <= j < i ==> #[trigger] self.bodies@[j].id_spec() != id,
            decreases self.bodies.len() - i,
        {
            if self.bodies[i].id() == id {
                assert(self@.bodies[i as int].id_spec() == id);
                return Some(i);
            }
            i += 1;
        }
        None
    }

    /// Adds a body of the given shape and configuration, drawn with the
    /// given mesh and texture, and returns its identity: the next one that
    /// was never given out. The terrain is not added here but by
    /// [`World::setup_heightfield`].
    pub fn add_body(&mut self, mesh: usize, texture: usize, shape: Rc<BodyShape>, config: BodyConfig)
        -> (r: Result<u64, WorldError>)
        requires
            old(self).wf(),
            !(*shape is HeightField),
        ensures
            final(self).wf(),
            r.is_ok() <==> old(self)@.next_id < u64::MAX,
            r matches Ok(id) ==> {
                &&& id == old(self)@.next_id
                &&& final(self)@.bodies.len() == old(self)@.bodies.len() + 1
                &&& final(self)@ == (WorldState {
                    bodies: old(self)@.bodies.push(final(self)@.bodies.last()),
                    next_id: (id + 1) as u64,
                    ..old(self)@
                })
                &&& final(self)@.bodies.last().id_spec() == id
                &&& final(self)@.bodies.last().mesh_spec() == Some(mesh)
                &&& final(self)@.bodies.last().texture_spec() == Some(texture)
                &&& final(self)@.bodies.last().shape_spec() == *shape
                &&& final(self)@.bodies.last().config_spec() == config
                &&& final(self)@.bodies.last().collide_sound_spec() == config.collide_sound
                &&& !final(self)@.bodies.last().shaded_spec()
            },
            r matches Err(e) ==> e == WorldError::IdsExhausted && final(self)@ == old(self)@,
            final(self)@.ledger() == old(self)@.ledger().added(),
    {
        if self.body_id_counter == u64::MAX {
            return Err(WorldError::IdsExhausted);
        }
        let id: u64 = self.body_id_counter;
        let body = Body::new(id, Some(mesh), Some(texture), shape, config, false);
        self.bodies.push(body);
        self.body_id_counter = id + 1;
        proof {
            assert(self@.bodies =~= old(self)@.bodies.push(self@.bodies.last()));
            assert(self@.ids() =~= old(self)@.ids().push(id));
        }
        Ok(id)
    }

    /// Removes the body with identity `id`. Bodies behind it move up one
    /// place, so a position in the registry is good for one lookup only.
    /// The identity is not given out again.
    pub fn del_body(&mut self, body_id: u64)
        requires
            old(self).wf(),
            old(self)@.contains(body_id),
        ensures
            final(self).wf(),
            final(self)@ == (WorldState {
                bodies: old(self)@.bodies.remove(old(self)@.index_of(body_id)),
                ..old(self)@
            }),
            !final(self)@.contains(body_id),
            final(self)@.ledger() == old(self)@.ledger().deleted(body_id),
    {
        let found = self.find_body(body_id);
        let idx: usize = found.unwrap();
        proof {
            let k = old(self)@.index_of(body_id);
            assert(k == idx) by {
                if k < idx {
                    assert(self@.bodies[k].id_spec() != self@.bodies[idx as int].id_spec());
                } else if idx < k {
                    assert(self@.bodies[idx as int].id_spec() != self@.bodies[k].id_spec());
                }
            }
        }
        self.bodies.remove(idx);
        proof {
            let before = old(self)@.bodies;
            let after = self@.bodies;
            assert forall|i: int| 0 <= i < after.len() implies (#[trigger] after[i]) == before[if i
                < idx {
                i
            } else {
                i + 1
            }] by {}
            assert forall|i: int, j: int| 0 <= i < j < after.len() implies #[trigger] after[i].id_spec()
                != #[trigger] after[j].id_spec() by {
                let bi = if i < idx {
                    i
                } else {
                    i + 1
                };
                let bj = if j < idx {
                    j
                } else {
                    j + 1
                };
                assert(before[bi].id_spec() != before[bj].id_spec());
            }
            assert forall|i: int| 0 <= i < after.len() implies #[trigger] after[i].id_spec()
                != body_id by {
                let bi = if i < idx {
                    i
                } else {
                    i + 1
                };
                if bi < idx {
                    assert(before[bi].id_spec() != before[idx as int].id_spec());
                } else {
                    assert(before[idx as int].id_spec() != before[bi].id_spec());
                }
            }
            assert forall|i: int| 0 <= i < after.len() implies #[trigger] after[i].id_spec()
                < self@.next_id by {
                let bi = if i < idx {
                    i
                } else {
                    i + 1
                };
                assert(before[bi].id_spec() < old(self)@.next_id);
            }
            let ids = old(self)@.ids();
            assert(ids[idx as int] == body_id);
            assert(ids.contains(body_id));
            let at = ids.index_of(body_id);
            assert(at == idx) by {
                if at < idx {
                    assert(before[at].id_spec() != before[idx as int].id_spec());
                } else if idx < at {
                    assert(before[idx as int].id_spec() != before[at].id_spec());
                }
            }
            assert(self@.ids() =~= ids.remove(at));
        }
    }

    /// Finds the bodies that the geometries of a colliding pair belong to.
    /// `first` and `second` are the identities stored with the engine's
    /// bodies, `None` for a geometry without a body.
    pub fn resolve_pair(&self, first: Option<u64>, second: Option<u64>) -> (r: PairOwners)
        requires
            self.wf(),
            first.is_some() && second.is_some() ==> self@.contains(first.unwrap())
                && self@.contains(second.unwrap()),
        ensures
            r is Unowned <==> first.is_none() || second.is_none(),
            r is SelfPair <==> first.is_some() && second.is_some() && first == second,
            r matches PairOwners::Distinct { first: i, second: j } ==> i != j && i
                < self@.bodies.len() && j < self@.bodies.len() && self@.bodies[i as int].id_spec()
                == first.unwrap() && self@.bodies[j as int].id_spec() == second.unwrap(),
    {
        match (first, second) {
            (Some(a), Some(b)) => {
                if a == b {
                    PairOwners::SelfPair
                } else {
                    let i: usize = self.find_body(a).unwrap();
                    let j: usize = self.find_body(b).unwrap();
                    PairOwners::Distinct { first: i, second: j }
                }
            },
            _ => PairOwners::Unowned,
        }
    }

    /// Shows one contact between the bodies at places `i` and `j` to every
    /// handler, in the order of registration, and collects their answers.
    fn dispatch(&mut self, i: usize, j: usize, contact: &mut ContactPoint) -> (verdicts: Vec<bool>)
        requires
            old(self).wf(),
            i != j,
            i < old(self)@.bodies.len(),
            j < old(self)@.bodies.len(),
        ensures
            final(self).wf(),
            verdicts.len() == old(self)@.handlers.len(),
            final(self)@.handlers.len() == old(self)@.handlers.len(),
            final(self)@.ids() == old(self)@.ids(),
            final(self)@.bodies.len() == old(self)@.bodies.len(),
            forall|t: int|
                0 <= t < final(self)@.bodies.len() && t != i && t != j
                    ==> #[trigger] final(self)@.bodies[t] == old(self)@.bodies[t],
            final(self)@ == (WorldState {
                bodies: final(self)@.bodies,
                handlers: final(self)@.handlers,
                ..old(self)@
            }),
    {
        let mut verdicts: Vec<bool> = Vec::new();
        let id_i: u64 = self.bodies[i].id();
        let id_j: u64 = self.bodies[j].id();
        let count: usize = self.contact_handlers.len();
        let mut h: usize = 0;
        while h < count
            invariant
                self.wf(),
                h <= count,
                count == self@.handlers.len(),
                count == old(self)@.handlers.len(),
                verdicts.len() == h,
                i != j,
                i < self@.bodies.len(),
                j < self@.bodies.len(),
                self@.bodies.len() == old(self)@.bodies.len(),
                self@.ids() == old(self)@.ids(),
                id_i == old(self)@.bodies[i as int].id_spec(),
                id_j == old(self)@.bodies[j as int].id_spec(),
                forall|t: int|
                    0 <= t < self@.bodies.len() && t != i && t != j ==> #[trigger] self@.bodies[t]
                        == old(self)@.bodies[t],
                self@ == (WorldState {
                    bodies: self@.bodies,
                    handlers: self@.handlers,
                    ..old(self)@
                }),
            decreases count - h,
        {
            let ghost before = self@;
            let answer: bool = if i < j {
                let (low, high) = self.bodies.as_mut_slice().split_at_mut(j);
                let a = &mut low[i];
                let b = &mut high[0];
                let v = self.contact_handlers[h].handle(a, b, contact);
                a.pin_id(id_i);
                b.pin_id(id_j);
                v
            } else {
                let (low, high) = self.bodies.as_mut_slice().split_at_mut(i);
                let a = &mut high[0];
                let b = &mut low[j];
                let v = self.contact_handlers[h].handle(a, b, contact);
                a.pin_id(id_i);
                b.pin_id(id_j);
                v
            };
            verdicts.push(answer);
            proof {
                assert(self@.bodies.len() == before.bodies.len());
                assert(self@.ids() =~= before.ids());
                assert forall|t: int| 0 <= t < self@.bodies.len() implies #[trigger] self@.bodies[t].id_spec()
                    == before.bodies[t].id_spec() by {
                    assert(self@.ids()[t] == before.ids()[t]);
                }
            }
            h += 1;
        }
        verdicts
    }

    /// Takes the contact points that the narrow phase found between two
    /// geometries through the pipeline, and says what became of each. Of
    /// more than [`MAX_CONTACTS`] points, those beyond are not looked at.
    ///
    /// Two geometries of one body do not collide: nothing happens, and no
    /// handler hears of it. Otherwise every point gets the friction of all
    /// contacts. If both geometries belong to bodies, every handler is
    /// shown the point, in the order of registration, and may change the
    /// two bodies and the contact, though not who the bodies are. A point
    /// that no handler vetoed becomes a joint between the two sides, which
    /// joins those of the tick under way; a point of a geometry without a
    /// body is shown to nobody and always becomes a joint.
    pub fn near_callback(
        &mut self,
        first: Option<u64>,
        second: Option<u64>,
        points: &Vec<ContactPoint>,
    ) -> (outcomes: Vec<ContactOutcome>)
        requires
            old(self).wf(),
            first.is_some() && second.is_some() ==> old(self)@.contains(first.unwrap())
                && old(self)@.contains(second.unwrap()),
        ensures
            final(self).wf(),
            first.is_some() && first == second ==> outcomes.len() == 0 && final(self)@ == old(self)@,
            !(first.is_some() && first == second) ==> outcomes.len() == (if points.len()
                <= MAX_CONTACTS {
                points.len()
            } else {
                MAX_CONTACTS
            }),
            final(self)@ == (WorldState {
                bodies: final(self)@.bodies,
                handlers: final(self)@.handlers,
                joints: old(self)@.joints + joints_of(first, second, outcomes@),
                ..old(self)@
            }),
            final(self)@.ids() == old(self)@.ids(),
            final(self)@.handlers.len() == old(self)@.handlers.len(),
            forall|t: int|
                0 <= t < final(self)@.bodies.len() && final(self)@.bodies[t].id_spec() != first.unwrap()
                    && final(self)@.bodies[t].id_spec() != second.unwrap()
                    ==> #[trigger] final(self)@.bodies[t] == old(self)@.bodies[t],
            first.is_none() || second.is_none() ==> final(self)@.bodies == old(self)@.bodies
                && final(self)@.handlers == old(self)@.handlers,
            forall|k: int|
                0 <= k < outcomes.len() ==> (#[trigger] outcomes[k]).verdicts.len() == (
                if first.is_some() && second.is_some() {
                    old(self)@.handlers.len()
                } else {
                    0
                }),
            first.is_none() || second.is_none() ==> forall|k: int|
                0 <= k < outcomes.len() ==> (#[trigger] outcomes[k]).contact == prepared(points[k]),
    {
        let mut outcomes: Vec<ContactOutcome> = Vec::new();
        let pair: PairOwners = self.resolve_pair(first, second);
        if let PairOwners::SelfPair = pair {
            proof {
                assert(self@.joints + joints_of(first, second, outcomes@) =~= self@.joints);
            }
            return outcomes;
        }
        let n: usize = if points.len() <= MAX_CONTACTS {
            points.len()
        } else {
            MAX_CONTACTS
        };
        let mut k: usize = 0;
        proof {
            assert(self@.joints + joints_of(first, second, outcomes@) =~= self@.joints);
        }
        while k < n
            invariant
                self.wf(),
                k <= n,
                n <= points.len(),
                outcomes.len() == k,
                !(pair is SelfPair),
                pair is Unowned <==> first.is_none() || second.is_none(),
                pair matches PairOwners::Distinct { first: i, second: j } ==> i != j && i
                    < self@.bodies.len() && j < self@.bodies.len()
                    && old(self)@.bodies[i as int].id_spec() == first.unwrap()
                    && old(self)@.bodies[j as int].id_spec() == second.unwrap(),
                self@ == (WorldState {
                    bodies: self@.bodies,
                    handlers: self@.handlers,
                    joints: old(self)@.joints + joints_of(first, second, outcomes@),
                    ..old(self)@
                }),
                self@.ids() == old(self)@.ids(),
                self@.bodies.len() == old(self)@.bodies.len(),
                self@.handlers.len() == old(self)@.handlers.len(),
                forall|t: int|
                    0 <= t < self@.bodies.len() && old(self)@.bodies[t].id_spec() != first.unwrap()
                        && old(self)@.bodies[t].id_spec() != second.unwrap()
                        ==> #[trigger] self@.bodies[t] == old(self)@.bodies[t],
                pair is Unowned ==> self@.bodies == old(self)@.bodies && self@.handlers == old(self)@.handlers,
                forall|m: int|
                    0 <= m < outcomes.len() ==> (#[trigger] outcomes[m]).verdicts.len() == (
                    if first.is_some() && second.is_some() {
                        old(self)@.handlers.len()
                    } else {
                        0
                    }),
                pair is Unowned ==> forall|m: int|
                    0 <= m < outcomes.len() ==> (#[trigger] outcomes[m]).contact == prepared(
                        points[m],
                    ),
            decreases n - k,
        {
            let point: ContactPoint = points[k];
            let mut contact = ContactPoint {
                position: point.position,
                normal: point.normal,
                depth: point.depth,
                friction: CONTACT_FRICTION,
            };
            let ghost before = self@;
            let ghost before_outcomes = outcomes@;
            let verdicts: Vec<bool> = match pair {
                PairOwners::Distinct { first: i, second: j } => self.dispatch(i, j, &mut contact),
                _ => Vec::new(),
            };
            let joint = resolve_contact(first, second, contact, &verdicts);
            match joint {
                Some(j) => {
                    self.contact_joints.push(j);
                },
                None => {},
            }
            outcomes.push(ContactOutcome { contact, verdicts });
            proof {
                assert(outcomes@.drop_last() =~= before_outcomes);
                assert(self@.joints =~= old(self)@.joints + joints_of(first, second, outcomes@));
                assert forall|t: int|
                    0 <= t < self@.bodies.len() && old(self)@.bodies[t].id_spec() != first.unwrap()
                        && old(self)@.bodies[t].id_spec() != second.unwrap() implies #[trigger] self@.bodies[t]
                    == old(self)@.bodies[t] by {
                    assert(before.bodies[t] == old(self)@.bodies[t]);
                }
            }
            k += 1;
        }
        proof {
            assert forall|t: int|
                0 <= t < self@.bodies.len() && self@.bodies[t].id_spec() != first.unwrap()
                    && self@.bodies[t].id_spec() != second.unwrap() implies #[trigger] self@.bodies[t]
                == old(self)@.bodies[t] by {
                assert(self@.ids()[t] == old(self)@.ids()[t]);
            }
        }
        outcomes
    }

    /// Time taken in but not yet simulated, in microseconds.
    pub fn leftover_dt(&self) -> (t: u64)
        ensures
            t == self@.leftover_dt,
    {
        self.leftover_dt
    }

    /// Ticks that the last step asked for and that were not run yet.
    pub fn due_ticks(&self) -> (n: u64)
        ensures
            n == self@.due_ticks,
    {
        self.due_ticks
    }

    /// The tuning values that came with the last step.
    pub fn terrain_params(&self) -> (p: TerrainParams)
        ensures
            p == self@.frame_params,
    {
        self.frame_params
    }

    /// The terrain.
    pub fn terrain(&self) -> (t: &Terrain)
        ensures
            t@ == self@.terrain,
    {
        &self.terrain
    }

    /// The render mesh of the terrain, once there is a terrain.
    pub fn landscape_mesh(&self) -> (m: &Option<Mesh>)
        ensures
            *m == self@.landscape,
    {
        &self.landscape_mesh
    }

    /// The contact joints of the tick under way.
    pub fn contact_joints(&self) -> (j: &Vec<ContactJoint>)
        ensures
            j@ == self@.joints,
    {
        &self.contact_joints
    }

    /// Begins a frame: takes in `frame_dt` microseconds and says how many
    /// ticks are now due. What is left of the time, less than a tick, is
    /// kept for the next frame. The player's position and action, and the
    /// tuning values of the terrain, are noted once, and hold for every
    /// tick of the frame.
    ///
    /// There is no limit on the ticks of one frame: a long stall is caught
    /// up in full.
    pub fn step(
        &mut self,
        frame_dt: u64,
        player_position: Vec3,
        player_action: bool,
        terrain_params: TerrainParams,
    ) -> (due: u64)
        requires
            old(self).wf(),
            old(self)@.due_ticks == 0,
        ensures
            final(self).wf(),
            due == ticks_due(
                old(self)@.leftover_dt as int,
                frame_dt as int,
                old(self)@.config.fixed_dt as int,
            ),
            final(self)@ == (WorldState {
                leftover_dt: leftover_after(
                    old(self)@.leftover_dt as int,
                    frame_dt as int,
                    old(self)@.config.fixed_dt as int,
                ) as u64,
                due_ticks: due,
                frame_position: player_position,
                frame_action: player_action,
                frame_params: terrain_params,
                ..old(self)@
            }),
    {
        let fixed: u128 = self.config.fixed_dt as u128;
        let total: u128 = (self.leftover_dt as u128) + (frame_dt as u128);
        let due: u128 = total / fixed;
        let left: u128 = total % fixed;
        proof {
            vstd::arithmetic::div_mod::lemma_fundamental_div_mod(total as int, fixed as int);
            assert(due <= 0xffff_ffff_ffff_ffff) by (nonlinear_arith)
                requires
                    total == fixed * due + left,
                    0 <= left,
                    total <= 0xffff_ffff_ffff_ffff + fixed - 1,
                    1 <= fixed,
                    0 <= due,
            ;
        }
        self.leftover_dt = left as u64;
        self.due_ticks = due as u64;
        self.frame_position = player_position;
        self.frame_action = player_action;
        self.frame_params = terrain_params;
        due as u64
    }

    /// Begins one of the due ticks with the update of the terrain: the
    /// disturbance the player causes, moving at `player_velocity` from
    /// where the frame found them, and then one step of the wave equation.
    pub fn tick(&mut self, player_velocity: Vec3)
        requires
            old(self).wf(),
            old(self)@.due_ticks > 0,
        ensures
            final(self).wf(),
            final(self)@ == (WorldState {
                due_ticks: (old(self)@.due_ticks - 1) as u64,
                terrain: old(self)@.terrain.ticked(
                    old(self)@.frame_position,
                    player_velocity,
                    old(self)@.frame_action,
                ),
                ..old(self)@
            }),
    {
        self.due_ticks = self.due_ticks - 1;
        self.terrain.tick(self.frame_position, player_velocity, self.frame_action);
    }

    /// Ends a tick: the contact joints of the tick are released. None
    /// outlives the tick it was made in.
    pub fn end_tick(&mut self)
        ensures
            final(self)@ == (WorldState { joints: Seq::empty(), ..old(self)@ }),
    {
        self.contact_joints.clear();
    }

    /// Ends a frame: brings the mesh of the terrain up to the grid and
    /// says which runs of vertices changed and have to be sent to the GPU.
    /// Afterwards every vertex stands at the height of the cell it samples.
    pub fn resync_mesh(&mut self) -> (ranges: Vec<(usize, usize)>)
        requires
            old(self).wf(),
            old(self)@.landscape.is_some(),
        ensures
            final(self).wf(),
            final(self)@.landscape.is_some(),
            final(self)@ == (WorldState { landscape: final(self)@.landscape, ..old(self)@ }),
            final(self)@.landscape.unwrap().count_spec() == old(self)@.landscape.unwrap().count_spec(),
            final(self)@.landscape.unwrap().loaded() == (
            match old(self)@.landscape.unwrap().loaded() {
                Some(o) => Some(o),
                None => Some(Seq::empty()),
            }),
            final(self)@.landscape.unwrap().mirror().is_some(),
            final(self)@.landscape.unwrap().mirror().unwrap().len() == old(self)@.landscape.unwrap().count_spec(),
            forall|k: int|
                0 <= k < final(self)@.landscape.unwrap().mirror().unwrap().len() ==> old(self)@.terrain.is_resynced(
                    #[trigger] final(self)@.landscape.unwrap().mirror().unwrap()[k],
                    old(self)@.landscape.unwrap().mirror().unwrap()[k],
                    k,
                ),
            forall|k: int|
                0 <= k < final(self)@.landscape.unwrap().mirror().unwrap().len() ==> (
                #[trigger] final(self)@.landscape.unwrap().mirror().unwrap()[k]).position[1]
                    == old(self)@.terrain.height[old(self)@.terrain.vertex_cell[k]],
            is_dirty_runs(
                ranges@,
                old(self)@.landscape.unwrap().mirror().unwrap(),
                final(self)@.landscape.unwrap().mirror().unwrap(),
                old(self)@.landscape.unwrap().count_spec() as int,
            ),
    {
        let mut mesh: Mesh = self.landscape_mesh.take().unwrap();
        let ghost before = mesh.mirror().unwrap();
        let fresh = self.terrain.resync(mesh.gpu_clone());
        let ranges = mesh.update_mesh(&fresh);
        proof {
            assert(mesh.mirror().unwrap() =~= fresh@);
        }
        self.landscape_mesh = Some(mesh);
        ranges
    }

    /// Sets up the terrain from a source image and adds its body, which
    /// is drawn with the given mesh and texture; returns the identity of
    /// the body. An earlier terrain is replaced.
    ///
    /// The grid has one cell per texel, at rest at the decoded heights. The
    /// body is fixed and collides as terrain does.
    pub fn setup_heightfield(&mut self, texture: &HeightMap, mesh: usize, visible_texture: usize)
        -> (r: Result<u64, WorldError>)
        requires
            old(self).wf(),
        ensures
            final(self).wf(),
            r.is_ok() <==> texture.wf() && old(self)@.next_id < u64::MAX,
            r matches Ok(id) ==> {
                &&& id == old(self)@.next_id
                &&& final(self)@.bodies.len() == old(self)@.bodies.len() + 1
                &&& final(self)@ == (WorldState {
                    bodies: old(self)@.bodies.push(final(self)@.bodies.last()),
                    next_id: (id + 1) as u64,
                    terrain: final(self)@.terrain,
                    landscape: final(self)@.landscape,
                    ..old(self)@
                })
                &&& final(self)@.bodies.last().id_spec() == id
                &&& final(self)@.bodies.last().mesh_spec() == Some(mesh)
                &&& final(self)@.bodies.last().texture_spec() == Some(visible_texture)
                &&& final(self)@.bodies.last().shape_spec() is HeightField
                &&& final(self)@.bodies.last().config_spec() == crate::body::terrain_config()
                &&& final(self)@.bodies.last().collide_sound_spec().is_none()
                &&& final(self)@.bodies.last().shaded_spec()
                &&& final(self)@.terrain.width == texture.width
                &&& final(self)@.terrain.depth == texture.height
                &&& final(self)@.terrain.at_rest()
                &&& final(self)@.landscape.is_some()
                &&& final(self)@.landscape.unwrap().loaded()
                    == final(self)@.landscape.unwrap().mirror()
                &&& is_landscape(
                    texture,
                    old(self)@.config.scale as int,
                    final(self)@.terrain.height,
                    final(self)@.terrain.vertex_cell,
                    final(self)@.landscape.unwrap().mirror().unwrap(),
                )
            },
            r matches Err(e) ==> final(self)@ == old(self)@ && e == (if texture.wf() {
                WorldError::IdsExhausted
            } else {
                WorldError::BadHeightmap
            }),
            r.is_ok() ==> final(self)@.ledger() == old(self)@.ledger().added(),
    {
        if !texture.is_valid() {
            return Err(WorldError::BadHeightmap);
        }
        if self.body_id_counter == u64::MAX {
            return Err(WorldError::IdsExhausted);
        }
        let (landscape, resolution, heights, idx) = Mesh::from_texture(texture, self.config.scale);
        self.terrain.install(resolution.0, resolution.1, heights, idx);
        self.landscape_mesh = Some(landscape);
        let id: u64 = self.body_id_counter;
        let body = Body::new(
            id,
            Some(mesh),
            Some(visible_texture),
            Rc::new(BodyShape::HeightField),
            crate::body::terrain_body_config(),
            true,
        );
        self.bodies.push(body);
        self.body_id_counter = id + 1;
        proof {
            assert(self@.bodies =~= old(self)@.bodies.push(self@.bodies.last()));
            assert(self@.ids() =~= old(self)@.ids().push(id));
        }
        Ok(id)
    }
}

} // verus!
