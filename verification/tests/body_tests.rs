use std::rc::Rc;
use wave_world::body::terrain_body_config;
use wave_world::body::Body;
use wave_world::body::BodyConfig;
use wave_world::body::BodySetup;
use wave_world::body::BodyShape;
use wave_world::body::Geometry;
use wave_world::body::ShapeError;
use wave_world::body::BODY_CATEGORY_ALL_BIT;
use wave_world::body::BODY_CATEGORY_GEAR_BIT;
use wave_world::body::BODY_CATEGORY_OBJS_BIT;
use wave_world::body::BODY_CATEGORY_PLAYER_BIT;
use wave_world::body::BODY_CATEGORY_TERRAIN_BIT;
use wave_world::body::BODY_COLLIDE_GEAR;
use wave_world::body::BODY_COLLIDE_OBJS;
use wave_world::body::BODY_COLLIDE_PLAYER;
use wave_world::body::BODY_COLLIDE_TERRAIN;
use wave_world::math::Pnt3;

const ONE: i64 = 1_000_000;

fn config(category_bits: u64, collide_bits: u64) -> BodyConfig {
    BodyConfig { category_bits, collide_bits, ..BodyConfig::default() }
}

#[test]
fn category_bits_and_masks() {
    assert_eq!(BODY_CATEGORY_PLAYER_BIT, 1 << 0);
    assert_eq!(BODY_CATEGORY_OBJS_BIT, 1 << 1);
    assert_eq!(BODY_CATEGORY_TERRAIN_BIT, 1 << 2);
    assert_eq!(BODY_CATEGORY_GEAR_BIT, 1 << 3);
    assert_eq!(BODY_CATEGORY_ALL_BIT, 0xffff_ffff);
    assert_eq!(BODY_COLLIDE_PLAYER, 0xffff_ffff);
    assert_eq!(BODY_COLLIDE_OBJS, 0xffff_fff7);
    assert_eq!(BODY_COLLIDE_TERRAIN, 3);
    assert_eq!(BODY_COLLIDE_GEAR, 1);
}

#[test]
fn the_default_body_is_a_loose_object() {
    let c = BodyConfig::default();
    assert!(!c.fixed);
    assert_eq!(c.friction, 900_000);
    assert_eq!(c.restitution, 0);
    assert_eq!(c.density, ONE);
    assert_eq!(c.category_bits, BODY_CATEGORY_OBJS_BIT);
    assert_eq!(c.collide_bits, BODY_COLLIDE_OBJS);
    assert_eq!(c.collide_sound, None);
}

#[test]
fn the_terrain_body_is_fixed_terrain() {
    let c = terrain_body_config();
    assert!(c.fixed);
    assert_eq!(c.category_bits, BODY_CATEGORY_TERRAIN_BIT);
    assert_eq!(c.collide_bits, BODY_COLLIDE_TERRAIN);
    assert_eq!(c.collide_sound, None);
}

#[test]
fn collision_needs_both_directions() {
    // a wants b, b wants a.
    assert!(config(0b01, 0b10).collides_with(&config(0b10, 0b01)));
    // a wants b, b does not want a.
    assert!(!config(0b01, 0b10).collides_with(&config(0b10, 0b100)));
    // b wants a, a does not want b.
    assert!(!config(0b01, 0b100).collides_with(&config(0b10, 0b01)));
    // Neither wants the other.
    assert!(!config(0b01, 0b100).collides_with(&config(0b10, 0b1000)));
    // No categories at all.
    assert!(!config(0, u64::MAX).collides_with(&config(0, u64::MAX)));
    assert!(!config(u64::MAX, 0).collides_with(&config(u64::MAX, 0)));
    // One shared bit among many is enough.
    assert!(config(1 << 63, 1 << 40).collides_with(&config(1 << 40 | 1, 1 << 63 | 2)));
}

#[test]
fn collision_is_mutual() {
    let masks = [0u64, 1, 2, 3, 6, 8, 0xffff_ffff, u64::MAX, 1 << 63];
    for &a_cat in &masks {
        for &a_col in &masks {
            for &b_cat in &masks {
                for &b_col in &masks {
                    let a = config(a_cat, a_col);
                    let b = config(b_cat, b_col);
                    let expected = (a_col & b_cat) != 0 && (b_col & a_cat) != 0;
                    assert_eq!(a.collides_with(&b), expected);
                    assert_eq!(b.collides_with(&a), expected);
                }
            }
        }
    }
}

#[test]
fn who_collides_with_whom_in_the_game() {
    let player = config(BODY_CATEGORY_PLAYER_BIT, BODY_COLLIDE_PLAYER);
    let object = config(BODY_CATEGORY_OBJS_BIT, BODY_COLLIDE_OBJS);
    let terrain = config(BODY_CATEGORY_TERRAIN_BIT, BODY_COLLIDE_TERRAIN);
    let gear = config(BODY_CATEGORY_GEAR_BIT, BODY_COLLIDE_GEAR);
    assert!(player.collides_with(&object));
    assert!(player.collides_with(&terrain));
    assert!(player.collides_with(&gear));
    assert!(player.collides_with(&player));
    assert!(object.collides_with(&terrain));
    assert!(object.collides_with(&object));
    assert!(!object.collides_with(&gear));
    assert!(!gear.collides_with(&object));
    assert!(!gear.collides_with(&terrain));
    assert!(!terrain.collides_with(&terrain));
    assert!(!gear.collides_with(&gear));
}

#[test]
fn bodies_collide_by_their_configuration() {
    let ball = Rc::new(BodyShape::Sphere { radius: ONE });
    let a = Body::new(0, None, None, ball.clone(), config(1, 2), false);
    let b = Body::new(1, None, None, ball.clone(), config(2, 1), false);
    let c = Body::new(2, None, None, ball, config(2, 4), false);
    assert!(a.collides_with(&b));
    assert!(b.collides_with(&a));
    assert!(!a.collides_with(&c));
    assert!(!c.collides_with(&a));
}

#[test]
fn a_triangle_soup_lists_every_point_once() {
    let points = vec![
        Pnt3 { x: 1, y: 2, z: 3 },
        Pnt3 { x: -4, y: -5, z: -6 },
        Pnt3 { x: 7, y: 8, z: 9 },
        Pnt3 { x: 10, y: 11, z: 12 },
    ];
    match BodyShape::from_vertices(points) {
        Ok(BodyShape::TriangleSoup { vertices, indices }) => {
            assert_eq!(vertices, vec![1, 2, 3, -4, -5, -6, 7, 8, 9, 10, 11, 12]);
            assert_eq!(indices, vec![0, 1, 2, 3]);
        }
        _ => panic!("expected a triangle soup"),
    }
    match BodyShape::from_vertices(Vec::new()) {
        Ok(BodyShape::TriangleSoup { vertices, indices }) => {
            assert!(vertices.is_empty());
            assert!(indices.is_empty());
        }
        _ => panic!("expected a triangle soup"),
    }
    assert_eq!(ShapeError::TooManyVertices, ShapeError::TooManyVertices);
}

#[test]
fn a_body_remembers_what_it_was_made_with() {
    let shape = Rc::new(BodyShape::Sphere { radius: 3 * ONE });
    let c = BodyConfig { collide_sound: Some(4), fixed: true, ..BodyConfig::default() };
    let b = Body::new(17, Some(2), Some(9), shape, c, true);
    assert_eq!(b.id(), 17);
    assert_eq!(b.mesh(), Some(2));
    assert_eq!(b.texture(), Some(9));
    assert_eq!(b.collide_sound(), Some(4));
    assert!(b.shaded());
    assert!(b.config().fixed);
    assert!(matches!(b.shape(), BodyShape::Sphere { radius } if *radius == 3 * ONE));
}

#[test]
fn a_dynamic_ball_for_the_engine() {
    let shape = Rc::new(BodyShape::Sphere { radius: 2 * ONE });
    let c = BodyConfig { density: 100_000, category_bits: 1, collide_bits: 0xffff_ffff, ..BodyConfig::default() };
    let b = Body::new(5, None, None, shape, c, false);
    assert_eq!(
        b.engine_setup(),
        BodySetup {
            id: 5,
            kinematic: false,
            ball_density: Some(100_000),
            category_bits: 1,
            collide_bits: 0xffff_ffff,
            geometry: Geometry::Sphere { radius: 2 * ONE },
        }
    );
}

#[test]
fn a_fixed_soup_for_the_engine() {
    let points: Vec<Pnt3> = (0..6).map(|i| Pnt3 { x: i, y: i, z: i }).collect();
    let shape = Rc::new(BodyShape::from_vertices(points).unwrap());
    let c = BodyConfig { fixed: true, ..BodyConfig::default() };
    let b = Body::new(8, Some(0), Some(0), shape, c, false);
    assert_eq!(
        b.engine_setup(),
        BodySetup {
            id: 8,
            kinematic: true,
            ball_density: None,
            category_bits: BODY_CATEGORY_OBJS_BIT,
            collide_bits: BODY_COLLIDE_OBJS,
            geometry: Geometry::TriMesh {
                vertex_stride: 24,
                vertex_count: 6,
                index_count: 6,
                triangle_stride: 12,
            },
        }
    );
}

#[test]
fn the_terrain_for_the_engine() {
    let b = Body::new(0, None, None, Rc::new(BodyShape::HeightField), terrain_body_config(), true);
    let s = b.engine_setup();
    assert!(s.kinematic);
    assert_eq!(s.ball_density, None);
    assert_eq!(s.category_bits, 4);
    assert_eq!(s.collide_bits, 3);
    assert_eq!(s.geometry, Geometry::HeightField);
}

#[test]
fn the_transform_has_rotation_upper_left_and_position_in_the_last_column() {
    let rotation: [f32; 12] = [
        1.0, 2.0, 3.0, 99.0, //
        4.0, 5.0, 6.0, 99.0, //
        7.0, 8.0, 9.0, 99.0,
    ];
    let position: [f32; 3] = [10.0, 20.0, 30.0];
    let m = Body::get_posrot_homogeneous(&position, &rotation, 0.0, 1.0);
    assert_eq!(
        m,
        [
            [1.0, 2.0, 3.0, 10.0],
            [4.0, 5.0, 6.0, 20.0],
            [7.0, 8.0, 9.0, 30.0],
            [0.0, 0.0, 0.0, 1.0],
        ]
    );
    let fixed = Body::get_posrot_homogeneous(&[7i64, 8, 9], &[ONE, 0, 0, 0, 0, ONE, 0, 0, 0, 0, ONE, 0], 0, ONE);
    assert_eq!(
        fixed,
        [[ONE, 0, 0, 7], [0, ONE, 0, 8], [0, 0, ONE, 9], [0, 0, 0, ONE]]
    );
}
