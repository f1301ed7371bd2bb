use wave_world::game::bump_particles;
use wave_world::game::diamond_spots;
use wave_world::game::fountain_particle;
use wave_world::game::impact_volume;
use wave_world::game::is_loud;
use wave_world::game::menu_step;
use wave_world::fixed::multiply;
use wave_world::game::next_state;
use wave_world::game::player_start;
use wave_world::game::spray;
use wave_world::game::Game;
use wave_world::game::Jump;
use wave_world::game::MenuItem;
use wave_world::game::MenuItem::Play;
use wave_world::game::MenuItem::Quit;
use wave_world::game::MenuOutcome;
use wave_world::game::Orders;
use wave_world::game::Pickup;
use wave_world::game::State;
use wave_world::game::FORCE_BOOSTED;
use wave_world::game::FORCE_NORMAL;
use wave_world::game::FOV_MAX;
use wave_world::game::FOV_MIN;
use wave_world::game::FOV_START;
use wave_world::game::PITCH_LIMIT;
use wave_world::heightmap::HeightMap;
use wave_world::input::Input;
use wave_world::math::Pnt3;
use wave_world::math::Vec2;
use wave_world::math::Vec3;
use wave_world::math::Vec4;
use wave_world::terrain::Terrain;

const ONE: i64 = 1_000_000;

fn idle() -> Input {
    Input::default()
}

fn stick(y: i64) -> Input {
    Input { player: Vec2 { x: 0, y }, ..Input::default() }
}

fn jump() -> Input {
    Input { jump: true, ..Input::default() }
}

fn quiet() -> Orders {
    Orders { jump: None, stop: false, fountain: false, fell: false }
}

#[test]
fn the_menu() {
    assert_eq!(menu_step(Play, &idle()), MenuOutcome::Stay(Play));
    assert_eq!(menu_step(Quit, &idle()), MenuOutcome::Stay(Quit));
    assert_eq!(menu_step(Play, &stick(1)), MenuOutcome::Stay(Quit));
    assert_eq!(menu_step(Quit, &stick(-1)), MenuOutcome::Stay(Play));
    assert_eq!(menu_step(Quit, &stick(ONE)), MenuOutcome::Stay(Quit));
    assert_eq!(menu_step(Play, &jump()), MenuOutcome::Start);
    assert_eq!(menu_step(Quit, &jump()), MenuOutcome::Leave);
    // The stick goes before the button.
    assert_eq!(menu_step(Quit, &Input { jump: true, ..stick(-5) }), MenuOutcome::Stay(Play));
    assert_eq!(menu_step(Play, &Input { jump: true, ..stick(5) }), MenuOutcome::Stay(Quit));
    assert_eq!(next_state(MenuOutcome::Stay(Quit)), Some(State::Menu(Quit)));
    assert_eq!(next_state(MenuOutcome::Start), Some(State::Game));
    assert_eq!(next_state(MenuOutcome::Leave), None);
}

#[test]
fn fixed_point_products() {
    assert_eq!(multiply(2 * ONE, 3 * ONE), 6 * ONE);
    assert_eq!(multiply(-2 * ONE, 3 * ONE), -6 * ONE);
    assert_eq!(multiply(1, 1), 0);
    assert_eq!(multiply(-1_999_999, 1), -1);
    assert_eq!(multiply(3_140_000, 9_806_650), 30_792_881);
    assert_eq!(multiply(i64::MAX, i64::MAX), i64::MAX);
    assert_eq!(multiply(i64::MIN, i64::MAX), i64::MIN);
    assert_eq!(multiply(i64::MIN, i64::MIN), i64::MAX);
    assert_eq!(multiply(i64::MAX, ONE), i64::MAX);
    assert_eq!(multiply(i64::MIN, ONE), i64::MIN);
}

#[test]
fn a_new_round() {
    let g = Game::new(5_000);
    assert_eq!(g.yaw(), 0);
    assert_eq!(g.pitch(), 0);
    assert_eq!(g.fov(), FOV_START);
    assert_eq!(FOV_START, 1_570_800);
    assert_eq!(g.score(), (0, 0));
    assert_eq!(g.force(5_000), FORCE_NORMAL);
    assert_eq!(g.force(0), FORCE_BOOSTED);
    assert_eq!(g.playtime(1234), 1234);
    assert!(!g.is_pickup(0));
}

#[test]
fn jumping_needs_ground_and_a_fresh_press() {
    let mut g = Game::new(0);
    // In the air: no jump.
    assert_eq!(g.controls(&jump(), 100, false, 0), quiet());
    // On the ground: the first jump, at full volume.
    let first = g.controls(&jump(), 100, true, 0);
    assert_eq!(first.jump, Some(Jump { force_y: 615_857_620, volume: ONE }));
    // Still holding the button: no second jump.
    assert_eq!(g.controls(&jump(), 100, true, 0).jump, None);
    assert_eq!(g.controls(&jump(), 100, true, 0).jump, None);
    // Let go, press again: the second jump at half volume.
    assert_eq!(g.controls(&idle(), 100, true, 0).jump, None);
    let second = g.controls(&jump(), 100, true, 0);
    assert_eq!(second.jump, Some(Jump { force_y: 615_857_620, volume: 500_000 }));
    g.controls(&idle(), 100, true, 0);
    let third = g.controls(&jump(), 100, true, 0);
    assert_eq!(third.jump.unwrap().volume, 333_333);
}

#[test]
fn the_power_up_boosts_for_ten_seconds() {
    let mut g = Game::new(0);
    g.add_diamond(3);
    g.add_powerup(9);
    assert!(g.is_pickup(3));
    assert!(g.is_pickup(9));
    assert_eq!(g.score(), (0, 1));
    assert_eq!(g.collect(9, 2_000, Some(1)), Pickup { sound: Some(1), cheer: None });
    assert!(!g.is_pickup(9));
    assert!(g.is_pickup(3));
    assert_eq!(g.score(), (0, 1));
    assert_eq!(g.force(2_000), FORCE_BOOSTED);
    assert_eq!(g.force(11_999), FORCE_BOOSTED);
    assert_eq!(g.force(12_000), FORCE_NORMAL);
    let lifted = g.controls(&jump(), 5_000, true, 0);
    assert_eq!(lifted.jump, Some(Jump { force_y: 1_933_792_926, volume: ONE }));
    let input = Input { player: Vec2 { x: ONE, y: -500_000 }, ..idle() };
    assert_eq!(g.steer(&input, 5_000, true), (62_800_000, -31_400_000));
    assert_eq!(g.steer(&input, 12_000, true), (20_000_000, -10_000_000));
    assert_eq!(g.steer(&input, 5_000, false), (0, 0));
    let mut late = Game::new(0);
    late.add_powerup(1);
    late.collect(1, u64::MAX, None);
    assert_eq!(late.force(u64::MAX - 1), FORCE_BOOSTED);
    assert_eq!(late.force(u64::MAX), FORCE_NORMAL);
}

#[test]
fn collecting_all_diamonds_wins() {
    let mut g = Game::new(0);
    for id in [4, 5, 6] {
        g.add_diamond(id);
    }
    assert_eq!(g.score(), (0, 3));
    assert_eq!(g.collect(5, 1_000, Some(0)), Pickup { sound: Some(0), cheer: None });
    assert_eq!(g.collect(4, 2_000, None), Pickup { sound: None, cheer: None });
    assert_eq!(g.score(), (2, 3));
    assert_eq!(g.playtime(2_500), 2_500);
    assert_eq!(g.collect(6, 3_501, Some(0)), Pickup { sound: Some(0), cheer: Some(1) });
    assert_eq!(g.score(), (3, 3));
    assert!(!g.is_pickup(4) && !g.is_pickup(5) && !g.is_pickup(6));
    // The clock stands at the time of the win.
    assert_eq!(g.playtime(9_999), 3_501);
    let mut h = Game::new(0);
    h.add_diamond(1);
    assert_eq!(h.collect(1, 7_500, None).cheer, Some(0));
    let mut k = Game::new(0);
    k.add_diamond(1);
    assert_eq!(k.collect(1, 7_499, None).cheer, Some(0));
    let mut m = Game::new(0);
    m.add_diamond(1);
    assert_eq!(m.collect(1, 7_999, None).cheer, Some(1));
}

#[test]
fn a_round_without_diamonds_is_won_by_the_power_up() {
    let mut g = Game::new(0);
    g.add_powerup(2);
    assert_eq!(g.collect(2, 100, None), Pickup { sound: None, cheer: Some(0) });
    assert_eq!(g.playtime(5_000), 100);
}

#[test]
fn the_camera_turns_a_tenth_of_the_input() {
    let mut g = Game::new(0);
    let turn = Input { camera: Vec2 { x: 3 * ONE, y: -ONE - 9 }, ..idle() };
    g.controls(&turn, 0, false, 0);
    assert_eq!((g.yaw(), g.pitch()), (300_000, -100_000));
    g.controls(&turn, 0, false, 0);
    assert_eq!((g.yaw(), g.pitch()), (600_000, -200_000));
    let reset = Input { reset_camera: true, ..turn };
    g.controls(&reset, 0, false, 0);
    assert_eq!((g.yaw(), g.pitch()), (300_000, -100_000));
    g.controls(&Input { reset_camera: true, ..idle() }, 0, false, 0);
    assert_eq!((g.yaw(), g.pitch()), (0, 0));
}

#[test]
fn the_pitch_stops_at_a_right_angle() {
    assert_eq!(PITCH_LIMIT, 1_570_800);
    let mut g = Game::new(0);
    let up = Input { camera: Vec2 { x: i64::MAX, y: i64::MAX }, ..idle() };
    g.controls(&up, 0, false, 0);
    assert_eq!(g.pitch(), PITCH_LIMIT);
    assert_eq!(g.yaw(), i64::MAX / 10);
    for _ in 0..12 {
        g.controls(&up, 0, false, 0);
    }
    assert_eq!(g.pitch(), PITCH_LIMIT);
    assert_eq!(g.yaw(), i64::MAX);
    let down = Input { camera: Vec2 { x: i64::MIN, y: i64::MIN }, ..idle() };
    for _ in 0..30 {
        g.controls(&down, 0, false, 0);
    }
    assert_eq!(g.pitch(), -PITCH_LIMIT);
    assert_eq!(g.yaw(), -i64::MAX);
}

#[test]
fn the_field_of_view_stays_within_bounds() {
    assert_eq!((FOV_MIN, FOV_MAX), (392_700, 2_748_900));
    let mut g = Game::new(0);
    g.zoom(&Input { zoom: 50_000, ..idle() });
    assert_eq!(g.fov(), 1_620_800);
    g.zoom(&Input { zoom: -100_000, ..idle() });
    assert_eq!(g.fov(), 1_520_800);
    g.zoom(&Input { zoom: i64::MAX, ..idle() });
    assert_eq!(g.fov(), FOV_MAX);
    g.zoom(&Input { zoom: i64::MIN, ..idle() });
    assert_eq!(g.fov(), FOV_MIN);
    g.zoom(&idle());
    assert_eq!(g.fov(), FOV_MIN);
}

#[test]
fn the_fountain_keeps_its_interval() {
    let mut g = Game::new(0);
    assert!(!g.controls(&idle(), 0, false, 0).fountain);
    assert!(!g.controls(&idle(), 150, false, 0).fountain);
    assert!(g.controls(&idle(), 151, false, 0).fountain);
    assert!(!g.controls(&idle(), 152, false, 0).fountain);
    assert!(!g.controls(&idle(), 301, false, 0).fountain);
    assert!(g.controls(&idle(), 302, false, 0).fountain);
    // A clock that runs backward throws nothing.
    assert!(!g.controls(&idle(), 0, false, 0).fountain);
    assert!(g.controls(&idle(), u64::MAX, false, 0).fountain);
}

#[test]
fn falling_off_the_world_ends_the_round_once() {
    let mut g = Game::new(0);
    assert!(!g.controls(&idle(), 10, false, -300 * ONE).fell);
    assert_eq!(g.playtime(20), 20);
    assert!(g.controls(&idle(), 30, false, -300 * ONE - 1).fell);
    assert_eq!(g.playtime(40), 30);
    assert!(!g.controls(&idle(), 50, false, -900 * ONE).fell);
    assert_eq!(g.playtime(60), 30);
}

#[test]
fn stopping_is_passed_on() {
    let mut g = Game::new(0);
    assert!(g.controls(&Input { stop: true, ..idle() }, 0, true, 0).stop);
    assert!(!g.controls(&idle(), 0, true, 0).stop);
}

#[test]
fn what_the_player_picks_up() {
    let mut g = Game::new(0);
    g.add_diamond(7);
    g.add_powerup(8);
    let player = 1;
    assert_eq!(g.picks_up(player, 1, 7), Some(7));
    assert_eq!(g.picks_up(player, 7, 1), Some(7));
    assert_eq!(g.picks_up(player, 8, 1), Some(8));
    assert_eq!(g.picks_up(player, 1, 2), None);
    assert_eq!(g.picks_up(player, 2, 7), None);
    assert_eq!(g.picks_up(player, 7, 8), None);
    assert_eq!(g.picks_up(player, 1, 1), None);
    assert!(g.bumps(player, 1, 2));
    assert!(g.bumps(player, 2, 1));
    assert!(!g.bumps(player, 2, 3));
    assert!(!g.bumps(player, 1, 7));
    assert!(!g.bumps(player, 8, 1));
    let ground = 0;
    assert!(g.lands(player, ground, 1, 0));
    assert!(g.lands(player, ground, 0, 1));
    assert!(!g.lands(player, ground, 1, 2));
    assert!(!g.lands(player, ground, 0, 2));
    assert!(!g.lands(player, ground, 0, 7));
    // Once picked up, a body is solid as far as the rules go.
    g.collect(7, 0, None);
    assert_eq!(g.picks_up(player, 1, 7), None);
    assert!(g.bumps(player, 1, 7));
}

#[test]
fn the_same_body_twice_among_the_pickups() {
    let mut g = Game::new(0);
    g.add_diamond(7);
    g.add_diamond(8);
    g.add_diamond(7);
    assert_eq!(g.score(), (0, 3));
    g.collect(7, 0, None);
    assert!(!g.is_pickup(7));
    assert!(g.is_pickup(8));
    assert_eq!(g.score(), (1, 3));
}

#[test]
fn how_loud_a_bump_is() {
    let up = Vec3::new(0, ONE, 0);
    // Falling at two units per second onto the ground, at scale 0.05: 0.05 * 4.
    assert_eq!(impact_volume(50_000, up, Vec3::new(0, -2 * ONE, 0)), 200_000);
    assert_eq!(impact_volume(50_000, up, Vec3::new(0, 2 * ONE, 0)), 200_000);
    // Sliding along the ground makes no sound.
    assert_eq!(impact_volume(50_000, up, Vec3::new(9 * ONE, 0, -9 * ONE)), 0);
    // Never louder than full volume.
    assert_eq!(impact_volume(50_000, up, Vec3::new(0, -5 * ONE, 0)), ONE);
    assert_eq!(impact_volume(50_000, up, Vec3::new(0, i64::MIN, 0)), ONE);
    assert_eq!(impact_volume(i64::MAX, Vec3::new(i64::MAX, i64::MAX, i64::MAX), Vec3::new(i64::MAX, i64::MAX, i64::MAX)), ONE);
    // A slanted normal takes the part of the velocity along it.
    let slanted = Vec3::new(600_000, 800_000, 0);
    assert_eq!(impact_volume(ONE, slanted, Vec3::new(500_000, 500_000, 7 * ONE)), 490_000);
    assert_eq!(impact_volume(0, up, Vec3::new(0, -5 * ONE, 0)), 0);
    assert_eq!(impact_volume(-ONE, up, Vec3::new(0, -3 * ONE, 0)), -9 * ONE);
    assert_eq!(impact_volume(i64::MIN, up, Vec3::new(0, i64::MAX, 0)), i64::MIN);
    assert!(!is_loud(10_000));
    assert!(is_loud(10_001));
    assert!(!is_loud(-ONE));
}

#[test]
fn a_bump_throws_ten_particles_in_a_ring() {
    let ps = bump_particles(Vec3::new(3 * ONE, 4 * ONE, 5 * ONE), 400_000);
    assert_eq!(ps.len(), 10);
    for (k, p) in ps.iter().enumerate() {
        assert_eq!(p.position, Pnt3 { x: 3 * ONE, y: 3 * ONE, z: 5 * ONE });
        assert_eq!(p.scale, Vec2 { x: ONE, y: ONE });
        assert_eq!(p.velocity, Vec3::new(spray(k).0, 200_000, spray(k).1));
        assert_eq!(p.color, Vec4 { x: ONE, y: ONE, z: ONE, w: ONE });
        assert_eq!(p.lifetime, Some(750_000));
        assert_eq!(p.alive, 0);
        assert_eq!(p.texture, 0);
    }
    assert_eq!(spray(0), (3_000_000, 0));
    assert_eq!(spray(5), (-2_999_999, -22));
    assert_eq!(spray(9), (2_427_074, -1_763_323));
    assert_eq!(spray(10), (0, 0));
    for k in 0..10 {
        let (x, z) = spray(k);
        let r2 = x * x + z * z;
        assert!((r2 - 9_000_000_000_000).abs() < 20_000_000);
    }
    let low = bump_particles(Vec3::new(0, i64::MIN, 0), i64::MAX);
    assert_eq!(low[0].position.y, i64::MIN);
    assert_eq!(low[0].scale, Vec2 { x: i64::MAX, y: i64::MAX });
}

#[test]
fn the_fountain_particle() {
    let p = fountain_particle(999_999, 3);
    assert_eq!(p.position, Pnt3 { x: 0, y: 0, z: 0 });
    assert_eq!(p.scale, Vec2 { x: 400_000, y: 400_000 });
    assert_eq!(p.velocity, Vec3::new(499_999, 2_500_000, 1));
    assert_eq!(p.color, Vec4 { x: 0, y: 0, z: ONE, w: 800_000 });
    assert_eq!(p.lifetime, Some(5_000_000));
    assert_eq!(p.alive, 0);
    assert_eq!(p.texture, 0);
    assert_eq!(fountain_particle(-3, i64::MIN).velocity, Vec3::new(-1, 2_500_000, i64::MIN / 2));
}

#[test]
fn diamonds_float_over_marked_texels() {
    // Three texels wide, two deep; the second byte marks, the first gives the height.
    let texel = |r: u8, g: u8| vec![r, g, 0, 255];
    let data: Vec<u8> = vec![
        texel(0, 0),
        texel(32, 129),
        texel(64, 255),
        texel(255, 128),
        texel(100, 200),
        texel(0, 130),
    ]
    .concat();
    let map = HeightMap { width: 3, height: 2, data };
    let spots = diamond_spots(&map, 2 * ONE);
    // Column by column: (1, 0), (1, 1), (2, 0), (2, 1).
    assert_eq!(
        spots,
        vec![
            Vec3::new(0, 3_500_000, -ONE),
            Vec3::new(0, 7_750_000, ONE),
            Vec3::new(2 * ONE, 5_500_000, -ONE),
            Vec3::new(2 * ONE, 1_500_000, ONE),
        ]
    );
    assert!(diamond_spots(&HeightMap { width: 0, height: 0, data: vec![] }, ONE).is_empty());
    assert!(diamond_spots(&HeightMap { width: 2, height: 2, data: vec![128; 16] }, ONE).is_empty());
    assert_eq!(diamond_spots(&HeightMap { width: 2, height: 2, data: vec![129; 16] }, ONE).len(), 4);
}

#[test]
fn where_the_player_starts() {
    let heights: Vec<i64> = (0..64 * 64).map(|i| i as i64).collect();
    let mut t = Terrain::empty(ONE);
    t.install(64, 64, heights, Vec::new());
    // Twenty cells in along both axes: cell 20 * 64 + 20.
    assert_eq!(
        player_start(&t),
        Some(Vec3::new(-12 * ONE, 1300 + 5 * ONE, -12 * ONE))
    );
    let mut coarse = Terrain::empty(4 * ONE);
    coarse.install(10, 8, vec![7 * ONE; 80], Vec::new());
    // Five cells in: cell floor(5 * 11) = 55.
    assert_eq!(
        player_start(&coarse),
        Some(Vec3::new(5 * ONE - 20 * ONE, 12 * ONE, 5 * ONE - 16 * ONE))
    );
    let mut small = Terrain::empty(ONE);
    small.install(20, 20, vec![0; 400], Vec::new());
    assert_eq!(player_start(&small), None);
    assert_eq!(player_start(&Terrain::empty(ONE)), None);
    let mut just = Terrain::empty(ONE);
    just.install(20, 22, vec![0; 440], Vec::new());
    assert_eq!(player_start(&just), Some(Vec3::new(10 * ONE, 5 * ONE, 9 * ONE)));
}
