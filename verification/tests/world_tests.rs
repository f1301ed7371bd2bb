use std::cell::RefCell;
use std::rc::Rc;
use wave_world::body::Body;
use wave_world::body::BodyConfig;
use wave_world::body::BodyShape;
use wave_world::body::BODY_CATEGORY_TERRAIN_BIT;
use wave_world::body::BODY_COLLIDE_TERRAIN;
use wave_world::contact::is_vetoed;
use wave_world::contact::resolve_contact;
use wave_world::contact::ContactHandler;
use wave_world::contact::ContactJoint;
use wave_world::contact::ContactPoint;
use wave_world::contact::CONTACT_FRICTION;
use wave_world::contact::MAX_CONTACTS;
use wave_world::math::Vec3;
use wave_world::heightmap::HeightMap;
use wave_world::terrain::Terrain;
use wave_world::world::PairOwners;
use wave_world::world::TerrainParams;
use wave_world::world::World;
use wave_world::world::WorldConfig;
use wave_world::world::WorldError;

const ONE: i64 = 1_000_000;

/// Answers what it was told to, and keeps a log of what it was shown.
struct Scripted {
    name: &'static str,
    veto_at_depth: Option<i64>,
    log: Rc<RefCell<Vec<(&'static str, u64, u64, i64)>>>,
}

impl ContactHandler for Scripted {
    fn handle(&mut self, first: &mut Body, second: &mut Body, contact: &mut ContactPoint) -> bool {
        self.log.borrow_mut().push((self.name, first.id(), second.id(), contact.depth));
        self.veto_at_depth == Some(contact.depth)
    }
}

/// Changes the contact it is shown.
struct Softener;

impl ContactHandler for Softener {
    fn handle(&mut self, _: &mut Body, _: &mut Body, contact: &mut ContactPoint) -> bool {
        contact.friction = 1;
        false
    }
}

fn world() -> World<Scripted> {
    World::new(ONE).unwrap()
}

fn ball() -> Rc<BodyShape> {
    Rc::new(BodyShape::Sphere { radius: ONE })
}

fn point(depth: i64) -> ContactPoint {
    ContactPoint {
        position: Vec3::new(1, 2, 3),
        normal: Vec3::new(0, ONE, 0),
        depth,
        friction: 0,
    }
}

fn nowhere() -> Vec3 {
    Vec3::new(0, 0, 0)
}

fn tuning() -> TerrainParams {
    TerrainParams { power: 2 * ONE, damping: 900_000, frequency: 3 * ONE }
}

#[test]
fn a_new_world_is_empty() {
    let w = world();
    assert!(w.bodies().is_empty());
    assert!(w.contact_joints().is_empty());
    assert_eq!(w.leftover_dt(), 0);
    assert_eq!(w.due_ticks(), 0);
    assert!(w.landscape_mesh().is_none());
    assert_eq!(w.terrain().resolution(), (0, 0));
    assert_eq!(w.terrain().scale(), ONE);
    assert_eq!(
        *w.config(),
        WorldConfig {
            scale: ONE,
            gravity: 9_806_650,
            fixed_dt: 10_000,
            linear_damping: 1_500,
            angular_damping: 1_500,
        }
    );
}

#[test]
fn unsupported_configurations_are_refused() {
    for &scale in &[0, -1, -ONE, 64 * ONE + 1, i64::MAX, i64::MIN] {
        assert!(matches!(World::<Scripted>::new(scale), Err(WorldError::InvalidConfig)));
    }
    assert!(World::<Scripted>::new(1).is_ok());
    assert!(World::<Scripted>::new(64 * ONE).is_ok());
    let stopped = WorldConfig { fixed_dt: 0, ..WorldConfig::with_scale(ONE) };
    assert!(!stopped.is_valid());
    assert!(matches!(World::<Scripted>::with_config(stopped), Err(WorldError::InvalidConfig)));
    let slow = WorldConfig { fixed_dt: 1, gravity: 0, ..WorldConfig::with_scale(ONE) };
    assert!(slow.is_valid());
    let w = World::<Scripted>::with_config(slow).unwrap();
    assert_eq!(*w.config(), slow);
}

#[test]
fn identities_count_up_from_zero() {
    let mut w = world();
    for expected in 0..5u64 {
        let id = w.add_body(1, 2, ball(), BodyConfig::default()).unwrap();
        assert_eq!(id, expected);
    }
    let ids: Vec<u64> = w.bodies().iter().map(|b| b.id()).collect();
    assert_eq!(ids, vec![0, 1, 2, 3, 4]);
}

#[test]
fn an_added_body_is_what_was_asked_for() {
    let mut w = world();
    let c = BodyConfig { collide_sound: Some(1), density: 5, ..BodyConfig::default() };
    let id = w.add_body(7, 8, ball(), c).unwrap();
    let b = &w.bodies()[w.find_body(id).unwrap()];
    assert_eq!(b.id(), id);
    assert_eq!(b.mesh(), Some(7));
    assert_eq!(b.texture(), Some(8));
    assert_eq!(b.collide_sound(), Some(1));
    assert_eq!(b.config().density, 5);
    assert!(!b.shaded());
    assert!(matches!(b.shape(), BodyShape::Sphere { .. }));
}

#[test]
fn identities_are_unique_and_never_reused() {
    let mut w = world();
    let mut live: Vec<u64> = Vec::new();
    let mut ever: Vec<u64> = Vec::new();
    // A fixed but irregular script of additions and removals.
    for round in 0..60u64 {
        if round % 3 != 2 || live.is_empty() {
            let id = w.add_body(0, 0, ball(), BodyConfig::default()).unwrap();
            assert!(!ever.contains(&id));
            assert!(ever.iter().all(|&e| e < id));
            ever.push(id);
            live.push(id);
        } else {
            let victim = live.remove((round as usize * 7) % live.len());
            w.del_body(victim);
            assert_eq!(w.find_body(victim), None);
        }
        let ids: Vec<u64> = w.bodies().iter().map(|b| b.id()).collect();
        assert_eq!(ids, live);
        for (i, a) in ids.iter().enumerate() {
            for b in &ids[i + 1..] {
                assert_ne!(a, b);
            }
        }
    }
}

#[test]
fn removal_moves_later_bodies_up() {
    let mut w = world();
    for _ in 0..4 {
        w.add_body(0, 0, ball(), BodyConfig::default()).unwrap();
    }
    assert_eq!(w.find_body(2), Some(2));
    assert_eq!(w.find_body(3), Some(3));
    w.del_body(1);
    assert_eq!(w.find_body(0), Some(0));
    assert_eq!(w.find_body(1), None);
    assert_eq!(w.find_body(2), Some(1));
    assert_eq!(w.find_body(3), Some(2));
    assert_eq!(w.find_body(4), None);
    assert_eq!(w.add_body(0, 0, ball(), BodyConfig::default()), Ok(4));
}

#[test]
fn half_ticks_add_up_to_one_tick() {
    let mut w = world();
    assert_eq!(w.step(5_000, nowhere(), false, tuning()), 0);
    assert_eq!(w.leftover_dt(), 5_000);
    assert_eq!(w.due_ticks(), 0);
    assert_eq!(w.step(5_000, nowhere(), false, tuning()), 1);
    assert_eq!(w.leftover_dt(), 0);
    assert_eq!(w.due_ticks(), 1);
    w.tick(nowhere());
    assert_eq!(w.due_ticks(), 0);
    w.end_tick();
    assert_eq!(w.step(0, nowhere(), false, tuning()), 0);
}

#[test]
fn the_frame_notes_the_tuning_of_the_terrain() {
    let mut w = terrain_world();
    assert_eq!(w.terrain_params(), TerrainParams { power: 0, damping: 0, frequency: 0 });
    let wild = TerrainParams { power: i64::MAX, damping: i64::MIN, frequency: -1 };
    w.step(10_000, nowhere(), true, wild);
    assert_eq!(w.terrain_params(), wild);
    w.tick(nowhere());
    // The law of the disturbance is fixed: the tuning changes nothing.
    let mut plain = terrain_world();
    plain.step(10_000, nowhere(), true, tuning());
    plain.tick(nowhere());
    assert_eq!(w.terrain().heightfield_velocity(), plain.terrain().heightfield_velocity());
    assert_eq!(w.terrain().heightfield(), plain.terrain().heightfield());
}

#[test]
fn leftover_time_is_carried_over() {
    let mut w = world();
    assert_eq!(w.step(9_999, nowhere(), false, tuning()), 0);
    assert_eq!(w.step(1, nowhere(), false, tuning()), 1);
    w.tick(nowhere());
    assert_eq!(w.step(25_000, nowhere(), false, tuning()), 2);
    assert_eq!(w.leftover_dt(), 5_000);
    w.tick(nowhere());
    w.tick(nowhere());
    assert_eq!(w.step(4_999, nowhere(), false, tuning()), 0);
    assert_eq!(w.leftover_dt(), 9_999);
    assert_eq!(w.step(10_001, nowhere(), false, tuning()), 2);
    assert_eq!(w.leftover_dt(), 0);
}

#[test]
fn a_long_stall_is_caught_up_in_full() {
    let mut w = world();
    assert_eq!(w.step(u64::MAX, nowhere(), false, tuning()), u64::MAX / 10_000);
    assert_eq!(w.leftover_dt(), u64::MAX % 10_000);
    let mut fine = World::<Scripted>::with_config(WorldConfig {
        fixed_dt: 1,
        ..WorldConfig::with_scale(ONE)
    })
    .unwrap();
    assert_eq!(fine.step(u64::MAX, nowhere(), false, tuning()), u64::MAX);
    assert_eq!(fine.leftover_dt(), 0);
}

fn terrain_world() -> World<Scripted> {
    let mut w = world();
    let source = HeightMap { width: 16, height: 16, data: vec![40; 16 * 16 * 4] };
    w.setup_heightfield(&source, 0, 0).unwrap();
    w
}

fn run_frame(w: &mut World<Scripted>, dt: u64, position: Vec3, velocity: Vec3, action: bool) -> u64 {
    let due = w.step(dt, position, action, tuning());
    for _ in 0..due {
        w.tick(velocity);
        w.end_tick();
    }
    w.resync_mesh();
    due
}

#[test]
fn one_long_frame_equals_three_short_ones() {
    let position = Vec3::new(2 * ONE, ONE, -ONE);
    let velocity = Vec3::new(30 * ONE, 0, 40 * ONE);
    let mut once = terrain_world();
    let mut thrice = terrain_world();
    assert_eq!(run_frame(&mut once, 30_000, position, velocity, true), 3);
    for _ in 0..3 {
        assert_eq!(run_frame(&mut thrice, 10_000, position, velocity, true), 1);
    }
    assert_eq!(once.leftover_dt(), thrice.leftover_dt());
    assert_eq!(once.terrain().heightfield(), thrice.terrain().heightfield());
    assert_eq!(once.terrain().heightfield_velocity(), thrice.terrain().heightfield_velocity());
    assert!(once.terrain().heightfield_velocity().iter().any(|&v| v != 0));
    let a = once.landscape_mesh().as_ref().unwrap().gpu_clone();
    let b = thrice.landscape_mesh().as_ref().unwrap().gpu_clone();
    assert_eq!(a.len(), b.len());
    for k in 0..a.len() {
        assert!(!a[k].differs(&b[k]));
    }
}

#[test]
fn frames_of_any_length_add_up() {
    let position = Vec3::new(0, 0, 0);
    let velocity = Vec3::new(0, 0, 25 * ONE);
    let mut whole = terrain_world();
    let mut pieces = terrain_world();
    let cuts = [1u64, 9_998, 2, 13_333, 20_000, 6_666, 0, 10_000];
    let total: u64 = cuts.iter().sum();
    let due_whole = run_frame(&mut whole, total, position, velocity, false);
    let mut due_pieces = 0;
    for &dt in &cuts {
        due_pieces += run_frame(&mut pieces, dt, position, velocity, false);
    }
    assert_eq!(due_whole, 6);
    assert_eq!(due_pieces, 6);
    assert_eq!(whole.leftover_dt(), 0);
    assert_eq!(pieces.leftover_dt(), 0);
    assert_eq!(whole.terrain().heightfield(), pieces.terrain().heightfield());
    assert_eq!(whole.terrain().heightfield_velocity(), pieces.terrain().heightfield_velocity());
}

#[test]
fn the_frame_fixes_position_and_action_for_all_its_ticks() {
    let mut w = terrain_world();
    let position = Vec3::new(3 * ONE, 0, 3 * ONE);
    assert_eq!(w.step(20_000, position, true, tuning()), 2);
    w.tick(nowhere());
    w.tick(Vec3::new(0, 7 * ONE, 0));
    // The same two ticks on a terrain of its own.
    let mut alone = Terrain::empty(ONE);
    alone.install(16, 16, vec![10 * ONE; 256], Vec::new());
    alone.tick(position, nowhere(), true);
    alone.tick(position, Vec3::new(0, 7 * ONE, 0), true);
    assert_eq!(w.terrain().heightfield_velocity(), alone.heightfield_velocity());
    assert_eq!(w.terrain().heightfield(), alone.heightfield());
    // Column floor(3 + 8) = 11, row 11: pushed down twice.
    assert!(w.terrain().heightfield_velocity()[11 + 11 * 16] < -30_000);
}

#[test]
fn setting_up_the_terrain() {
    let mut w = world();
    w.add_body(0, 0, ball(), BodyConfig::default()).unwrap();
    let texels: Vec<u8> = (0..12).flat_map(|i| vec![4 * (i as u8 + 1), 0, 0, 255]).collect();
    let source = HeightMap { width: 4, height: 3, data: texels };
    let id = w.setup_heightfield(&source, 5, 6).unwrap();
    assert_eq!(id, 1);
    let b = &w.bodies()[1];
    assert_eq!(b.id(), 1);
    assert_eq!(b.mesh(), Some(5));
    assert_eq!(b.texture(), Some(6));
    assert!(b.shaded());
    assert_eq!(b.collide_sound(), None);
    assert!(matches!(b.shape(), BodyShape::HeightField));
    assert!(b.config().fixed);
    assert_eq!(b.config().category_bits, BODY_CATEGORY_TERRAIN_BIT);
    assert_eq!(b.config().collide_bits, BODY_COLLIDE_TERRAIN);
    let t = w.terrain();
    assert_eq!(t.resolution(), (4, 3));
    let heights: Vec<i64> = (1..=12).map(|i| i * ONE).collect();
    assert_eq!(t.heightfield(), &heights);
    assert_eq!(t.heightfield_origin(), &heights);
    assert_eq!(t.heightfield_velocity(), &vec![0; 12]);
    assert_eq!(t.heightfield_idx().len(), 36);
    assert_eq!(t.height_at(3, 2), 12 * ONE);
    let mesh = w.landscape_mesh().as_ref().unwrap();
    assert_eq!(mesh.count(), 36);
    assert!(mesh.is_retained());
    assert_eq!(w.add_body(0, 0, ball(), BodyConfig::default()), Ok(2));
}

#[test]
fn a_bad_height_map_changes_nothing() {
    let mut w = world();
    w.add_body(0, 0, ball(), BodyConfig::default()).unwrap();
    let source = HeightMap { width: 4, height: 3, data: vec![0; 47] };
    assert_eq!(w.setup_heightfield(&source, 0, 0), Err(WorldError::BadHeightmap));
    assert_eq!(w.bodies().len(), 1);
    assert!(w.landscape_mesh().is_none());
    assert_eq!(w.terrain().resolution(), (0, 0));
    assert_eq!(w.add_body(0, 0, ball(), BodyConfig::default()), Ok(1));
}

#[test]
fn every_vertex_follows_its_cell() {
    let mut w = terrain_world();
    let position = Vec3::new(0, 0, 0);
    let velocity = Vec3::new(60 * ONE, 0, 0);
    for _ in 0..4 {
        run_frame(&mut w, 20_000, position, velocity, false);
        let t = w.terrain();
        let mesh = w.landscape_mesh().as_ref().unwrap().gpu_clone();
        assert_eq!(mesh.len(), t.heightfield_idx().len());
        for (k, v) in mesh.iter().enumerate() {
            let cell = t.heightfield_idx()[k];
            assert_eq!(v.position[1], t.heightfield()[cell]);
            assert_eq!(v.color_tint[0], t.heightfield_velocity()[cell] / 5);
        }
    }
    assert!(w.terrain().heightfield() != w.terrain().heightfield_origin());
}

#[test]
fn resync_reports_what_changed() {
    let mut w = terrain_world();
    // Nothing moved yet, but the normals are written for the first time.
    let first = w.resync_mesh();
    assert_eq!(first, vec![(0, 15 * 15 * 6)]);
    assert_eq!(w.resync_mesh(), Vec::new());
    w.step(10_000, Vec3::new(-100 * ONE, 0, -100 * ONE), false, tuning());
    w.tick(nowhere());
    w.end_tick();
    assert_eq!(w.resync_mesh(), Vec::new());
    w.step(10_000, Vec3::new(0, 0, 0), true, tuning());
    w.tick(nowhere());
    w.end_tick();
    let ranges = w.resync_mesh();
    assert!(!ranges.is_empty());
    let mut last_end = 0;
    for (i, &(start, end)) in ranges.iter().enumerate() {
        assert!(start < end && end <= 15 * 15 * 6);
        if i > 0 {
            assert!(start > last_end);
        }
        last_end = end;
    }
    // Only cells within the window moved; far corners did not.
    assert!(ranges[0].0 > 0);
}

#[test]
fn pairs_are_resolved_to_places_in_the_registry() {
    let mut w = world();
    for _ in 0..3 {
        w.add_body(0, 0, ball(), BodyConfig::default()).unwrap();
    }
    w.del_body(0);
    assert_eq!(w.resolve_pair(Some(1), Some(2)), PairOwners::Distinct { first: 0, second: 1 });
    assert_eq!(w.resolve_pair(Some(2), Some(1)), PairOwners::Distinct { first: 1, second: 0 });
    assert_eq!(w.resolve_pair(Some(2), Some(2)), PairOwners::SelfPair);
    assert_eq!(w.resolve_pair(Some(2), None), PairOwners::Unowned);
    assert_eq!(w.resolve_pair(None, Some(1)), PairOwners::Unowned);
    assert_eq!(w.resolve_pair(None, None), PairOwners::Unowned);
    // An identity on one side only is not looked up.
    assert_eq!(w.resolve_pair(Some(99), None), PairOwners::Unowned);
}

fn logged_world(vetoes: &[Option<i64>]) -> (World<Scripted>, Rc<RefCell<Vec<(&'static str, u64, u64, i64)>>>) {
    let names = ["first", "second", "third"];
    let log = Rc::new(RefCell::new(Vec::new()));
    let mut w = world();
    for (i, &veto_at_depth) in vetoes.iter().enumerate() {
        w.add_contact_handler(Scripted { name: names[i], veto_at_depth, log: log.clone() });
    }
    for _ in 0..3 {
        w.add_body(0, 0, ball(), BodyConfig::default()).unwrap();
    }
    (w, log)
}

#[test]
fn contacts_become_joints_when_nobody_objects() {
    let (mut w, log) = logged_world(&[None, None]);
    let out = w.near_callback(Some(0), Some(2), &vec![point(5), point(6)]);
    assert_eq!(out.len(), 2);
    assert_eq!(out[0].verdicts, vec![false, false]);
    assert_eq!(out[1].verdicts, vec![false, false]);
    let expected = |depth: i64| ContactJoint {
        first: Some(0),
        second: Some(2),
        contact: ContactPoint { friction: CONTACT_FRICTION, ..point(depth) },
    };
    assert_eq!(w.contact_joints(), &vec![expected(5), expected(6)]);
    assert_eq!(
        *log.borrow(),
        vec![("first", 0, 2, 5), ("second", 0, 2, 5), ("first", 0, 2, 6), ("second", 0, 2, 6)]
    );
}

#[test]
fn one_veto_is_enough_and_the_others_still_hear_of_the_contact() {
    let (mut w, log) = logged_world(&[None, Some(5), None]);
    let out = w.near_callback(Some(1), Some(0), &vec![point(5)]);
    assert_eq!(out.len(), 1);
    assert_eq!(out[0].verdicts, vec![false, true, false]);
    assert!(w.contact_joints().is_empty());
    assert_eq!(
        *log.borrow(),
        vec![("first", 1, 0, 5), ("second", 1, 0, 5), ("third", 1, 0, 5)]
    );
}

#[test]
fn a_veto_holds_for_its_contact_point_only() {
    let (mut w, _) = logged_world(&[Some(7), Some(9)]);
    let out = w.near_callback(Some(1), Some(2), &vec![point(7), point(8), point(9), point(10)]);
    let verdicts: Vec<Vec<bool>> = out.iter().map(|o| o.verdicts.clone()).collect();
    assert_eq!(
        verdicts,
        vec![vec![true, false], vec![false, false], vec![false, true], vec![false, false]]
    );
    let depths: Vec<i64> = w.contact_joints().iter().map(|j| j.contact.depth).collect();
    assert_eq!(depths, vec![8, 10]);
}

#[test]
fn a_vetoed_pair_gets_no_joint_at_all() {
    let log = Rc::new(RefCell::new(Vec::new()));
    let mut w = world();
    w.add_contact_handler(Scripted { name: "first", veto_at_depth: Some(3), log: log.clone() });
    w.add_body(0, 0, ball(), BodyConfig::default()).unwrap();
    w.add_body(0, 0, ball(), BodyConfig::default()).unwrap();
    let out = w.near_callback(Some(0), Some(1), &vec![point(3), point(3), point(3)]);
    assert_eq!(out.len(), 3);
    assert!(out.iter().all(|o| is_vetoed(&o.verdicts)));
    assert!(w.contact_joints().is_empty());
    assert_eq!(log.borrow().len(), 3);
}

#[test]
fn a_body_does_not_collide_with_itself() {
    let (mut w, log) = logged_world(&[None, Some(5)]);
    w.near_callback(Some(0), Some(1), &vec![point(1)]);
    let joints_before = w.contact_joints().clone();
    let heard_before = log.borrow().len();
    let out = w.near_callback(Some(2), Some(2), &vec![point(5), point(6)]);
    assert!(out.is_empty());
    assert_eq!(w.contact_joints(), &joints_before);
    assert_eq!(log.borrow().len(), heard_before);
    assert_eq!(w.bodies().len(), 3);
}

#[test]
fn geometry_without_a_body_skips_the_handlers_but_not_the_joint() {
    let (mut w, log) = logged_world(&[Some(5), Some(5)]);
    let out = w.near_callback(Some(1), None, &vec![point(5)]);
    assert_eq!(out.len(), 1);
    assert!(out[0].verdicts.is_empty());
    assert_eq!(out[0].contact.friction, CONTACT_FRICTION);
    let out = w.near_callback(None, None, &vec![point(6)]);
    assert!(out[0].verdicts.is_empty());
    let out = w.near_callback(None, Some(77), &vec![point(7)]);
    assert!(out[0].verdicts.is_empty());
    assert!(log.borrow().is_empty());
    let sides: Vec<(Option<u64>, Option<u64>, i64)> =
        w.contact_joints().iter().map(|j| (j.first, j.second, j.contact.depth)).collect();
    assert_eq!(
        sides,
        vec![(Some(1), None, 5), (None, None, 6), (None, Some(77), 7)]
    );
}

#[test]
fn no_more_than_a_hundred_contacts_per_pair() {
    assert_eq!(MAX_CONTACTS, 100);
    let (mut w, log) = logged_world(&[None]);
    let points: Vec<ContactPoint> = (0..130).map(point).collect();
    let out = w.near_callback(Some(0), Some(1), &points);
    assert_eq!(out.len(), 100);
    assert_eq!(w.contact_joints().len(), 100);
    assert_eq!(log.borrow().len(), 100);
    assert_eq!(w.contact_joints()[99].contact.depth, 99);
    let none = w.near_callback(Some(0), Some(1), &Vec::new());
    assert!(none.is_empty());
    assert_eq!(w.contact_joints().len(), 100);
}

#[test]
fn joints_do_not_outlive_their_tick() {
    let (mut w, _) = logged_world(&[]);
    w.step(10_000, nowhere(), false, tuning());
    w.tick(nowhere());
    w.near_callback(Some(0), Some(1), &vec![point(1), point(2)]);
    w.near_callback(Some(1), Some(2), &vec![point(3)]);
    assert_eq!(w.contact_joints().len(), 3);
    w.end_tick();
    assert!(w.contact_joints().is_empty());
    assert_eq!(w.bodies().len(), 3);
    w.end_tick();
    assert!(w.contact_joints().is_empty());
}

#[test]
fn every_contact_gets_the_friction_of_all_contacts() {
    assert_eq!(CONTACT_FRICTION, 50 * ONE);
    let (mut w, _) = logged_world(&[None]);
    let rough = ContactPoint { friction: 123, ..point(4) };
    w.near_callback(Some(0), Some(1), &vec![rough]);
    assert_eq!(w.contact_joints()[0].contact.friction, CONTACT_FRICTION);
    assert_eq!(w.contact_joints()[0].contact.position, Vec3::new(1, 2, 3));
    assert_eq!(w.contact_joints()[0].contact.normal, Vec3::new(0, ONE, 0));
}

#[test]
fn handlers_may_change_the_contact() {
    let mut w: World<Softener> = World::new(ONE).unwrap();
    w.add_contact_handler(Softener);
    w.add_body(0, 0, ball(), BodyConfig::default()).unwrap();
    w.add_body(0, 0, ball(), BodyConfig::default()).unwrap();
    let out = w.near_callback(Some(0), Some(1), &vec![point(4)]);
    assert_eq!(out[0].contact.friction, 1);
    assert_eq!(w.contact_joints()[0].contact.friction, 1);
}

/// Swaps the bodies it is shown, to take the place of the other.
struct Impostor;

impl ContactHandler for Impostor {
    fn handle(&mut self, first: &mut Body, second: &mut Body, _: &mut ContactPoint) -> bool {
        std::mem::swap(first, second);
        false
    }
}

#[test]
fn handlers_cannot_change_who_a_body_is() {
    let mut w: World<Impostor> = World::new(ONE).unwrap();
    w.add_contact_handler(Impostor);
    let a = BodyConfig { density: 1, ..BodyConfig::default() };
    let b = BodyConfig { density: 2, ..BodyConfig::default() };
    w.add_body(10, 10, ball(), a).unwrap();
    w.add_body(20, 20, ball(), b).unwrap();
    w.near_callback(Some(1), Some(0), &vec![point(1)]);
    let ids: Vec<u64> = w.bodies().iter().map(|b| b.id()).collect();
    assert_eq!(ids, vec![0, 1]);
    assert_eq!(w.find_body(0), Some(0));
    assert_eq!(w.find_body(1), Some(1));
    // What the handler did to the rest of the bodies stays done.
    assert_eq!(w.bodies()[0].config().density, 2);
    assert_eq!(w.bodies()[1].config().density, 1);
    assert_eq!(w.add_body(0, 0, ball(), BodyConfig::default()), Ok(2));
}

#[test]
fn verdicts_decide_on_the_joint() {
    assert!(!is_vetoed(&Vec::new()));
    assert!(!is_vetoed(&vec![false, false, false]));
    assert!(is_vetoed(&vec![true]));
    assert!(is_vetoed(&vec![false, false, true]));
    let p = point(3);
    assert_eq!(
        resolve_contact(Some(4), None, p, &vec![false, false]),
        Some(ContactJoint { first: Some(4), second: None, contact: p })
    );
    assert_eq!(resolve_contact(Some(4), Some(5), p, &vec![false, true]), None);
    assert_eq!(
        resolve_contact(None, None, p, &Vec::new()),
        Some(ContactJoint { first: None, second: None, contact: p })
    );
}

/// Marks the bodies it is shown.
struct Painter;

impl ContactHandler for Painter {
    fn handle(&mut self, first: &mut Body, second: &mut Body, _: &mut ContactPoint) -> bool {
        first.set_collide_sound(Some(7));
        second.set_appearance(None, Some(3), true);
        let mut config = *second.config();
        config.friction = 1;
        second.set_config(config);
        false
    }
}

#[test]
fn what_handlers_do_to_the_bodies_stays_done() {
    let mut w: World<Painter> = World::new(ONE).unwrap();
    w.add_contact_handler(Painter);
    for _ in 0..3 {
        w.add_body(1, 1, ball(), BodyConfig::default()).unwrap();
    }
    w.near_callback(Some(2), Some(0), &vec![point(1)]);
    let b = w.bodies();
    assert_eq!(b[2].collide_sound(), Some(7));
    assert_eq!(b[2].mesh(), Some(1));
    assert_eq!((b[0].mesh(), b[0].texture(), b[0].shaded()), (None, Some(3), true));
    assert_eq!(b[0].config().friction, 1);
    assert_eq!(b[0].collide_sound(), None);
    // The body that was not part of the contact is as it was.
    assert_eq!((b[1].mesh(), b[1].texture(), b[1].shaded()), (Some(1), Some(1), false));
    assert_eq!(b[1].collide_sound(), None);
    assert_eq!(b[1].config().friction, 900_000);
    let ids: Vec<u64> = b.iter().map(|b| b.id()).collect();
    assert_eq!(ids, vec![0, 1, 2]);
}
