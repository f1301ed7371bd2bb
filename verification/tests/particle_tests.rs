use wave_world::audio::NoEffect;
use wave_world::audio::StereoFilter;
use wave_world::audio::VolumeEffect;
use wave_world::math::Pnt3;
use wave_world::math::Vec2;
use wave_world::math::Vec3;
use wave_world::math::Vec4;
use wave_world::particle::Particle;
use wave_world::particle::ParticleVertex;
use wave_world::particle::Particles;
use wave_world::particle::HIDDEN_HEIGHT;

const ONE: i64 = 1_000_000;

fn blank() -> ParticleVertex {
    ParticleVertex {
        position: Pnt3 { x: 0, y: 0, z: 0 },
        scale: Vec2 { x: 0, y: 0 },
        color: Vec4 { x: 0, y: 0, z: 0, w: 0 },
        tex: 0,
    }
}

fn hidden(v: ParticleVertex) -> ParticleVertex {
    ParticleVertex { position: Pnt3 { x: 0, y: HIDDEN_HEIGHT, z: 0 }, ..v }
}

fn spark(x: i64, vx: i64, lifetime: Option<u64>) -> Particle {
    Particle {
        position: Pnt3 { x, y: 0, z: 0 },
        velocity: Vec3::new(vx, 2 * ONE, -ONE),
        lifetime,
        texture: 3,
        ..Particle::default()
    }
}

#[test]
fn the_plain_particle() {
    let p = Particle::default();
    assert_eq!(p.position, Pnt3 { x: 0, y: 0, z: 0 });
    assert_eq!(p.scale, Vec2 { x: 500_000, y: 500_000 });
    assert_eq!(p.velocity, Vec3::new(0, 0, 0));
    assert_eq!(p.color, Vec4 { x: ONE, y: ONE, z: ONE, w: ONE });
    assert_eq!(p.lifetime, None);
    assert_eq!(p.alive, 0);
    assert_eq!(p.texture, 0);
}

#[test]
fn a_new_buffer_is_blank() {
    let ps = Particles::new(3);
    assert_eq!(ps.count(), 0);
    assert_eq!(ps.vertices(), &vec![blank(); 3]);
    assert!(Particles::new(0).vertices().is_empty());
}

#[test]
fn particles_drift_and_age() {
    let mut ps = Particles::new(2);
    ps.add(spark(ONE, 3 * ONE, None));
    assert_eq!(ps.count(), 1);
    assert_eq!(ps.vertices(), &vec![blank(); 2]);
    ps.step(500_000);
    let shown = ps.vertices()[0];
    assert_eq!(shown.position, Pnt3 { x: 2_500_000, y: ONE, z: -500_000 });
    assert_eq!(shown.scale, Vec2 { x: 500_000, y: 500_000 });
    assert_eq!(shown.color, Vec4 { x: ONE, y: ONE, z: ONE, w: ONE });
    assert_eq!(shown.tex, 3);
    assert_eq!(ps.vertices()[1], hidden(blank()));
    ps.step(1);
    assert_eq!(ps.vertices()[0].position, Pnt3 { x: 2_500_003, y: 1_000_002, z: -500_001 });
    ps.step(0);
    assert_eq!(ps.vertices()[0].position, Pnt3 { x: 2_500_003, y: 1_000_002, z: -500_001 });
}

#[test]
fn particles_vanish_after_their_lifetime() {
    let mut ps = Particles::new(4);
    ps.add(spark(1, 0, Some(1_000)));
    ps.add(spark(2, 0, None));
    ps.add(spark(3, 0, Some(400)));
    ps.add(spark(4, 0, Some(0)));
    ps.step(400);
    // A particle lives through the end of its lifetime; the last one was over at once.
    assert_eq!(ps.count(), 3);
    let xs: Vec<i64> = ps.vertices().iter().map(|v| v.position.x).collect();
    assert_eq!(xs, vec![1, 2, 3, 0]);
    assert_eq!(ps.vertices()[3].position.y, HIDDEN_HEIGHT);
    ps.step(1);
    assert_eq!(ps.count(), 2);
    let xs: Vec<i64> = ps.vertices().iter().map(|v| v.position.x).collect();
    assert_eq!(xs, vec![1, 2, 0, 0]);
    // What is parked keeps the rest of what it last showed.
    assert_eq!(ps.vertices()[2].tex, 3);
    assert_eq!(ps.vertices()[2].position.y, HIDDEN_HEIGHT);
    ps.step(600);
    assert_eq!(ps.count(), 1);
    assert_eq!(ps.vertices()[0].position.x, 2);
    assert_eq!(ps.vertices()[1].position.y, HIDDEN_HEIGHT);
    ps.step(u64::MAX);
    ps.step(u64::MAX);
    assert_eq!(ps.count(), 1);
}

#[test]
fn more_particles_than_the_buffer_holds() {
    let mut ps = Particles::new(2);
    for x in 1..=5 {
        ps.add(spark(x, 0, None));
    }
    ps.step(10);
    assert_eq!(ps.count(), 5);
    let xs: Vec<i64> = ps.vertices().iter().map(|v| v.position.x).collect();
    assert_eq!(xs, vec![1, 2]);
}

#[test]
fn positions_stop_at_the_ends_of_the_number_range() {
    let mut ps = Particles::new(1);
    ps.add(Particle {
        position: Pnt3 { x: i64::MAX - 5, y: i64::MIN + 5, z: 0 },
        velocity: Vec3::new(i64::MAX, i64::MIN, i64::MIN),
        ..Particle::default()
    });
    ps.step(u64::MAX);
    assert_eq!(ps.vertices()[0].position, Pnt3 { x: i64::MAX, y: i64::MIN, z: i64::MIN });
}

#[test]
fn no_effect_leaves_the_sound_alone() {
    let mut samples = [1i16, -2, 300, i16::MIN, i16::MAX];
    NoEffect {}.filter(&mut samples);
    assert_eq!(samples, [1, -2, 300, i16::MIN, i16::MAX]);
}

#[test]
fn the_volume_scales_every_sample() {
    let mut samples = [1000i16, -1000, 3, -3, 0, i16::MAX, i16::MIN];
    VolumeEffect { vol: 500_000 }.filter(&mut samples);
    assert_eq!(samples, [500, -500, 1, -1, 0, 16_383, -16_384]);
    let mut samples = [1000i16, -1000, 20_000, -20_000];
    VolumeEffect { vol: 2 * ONE }.filter(&mut samples);
    assert_eq!(samples, [2000, -2000, i16::MAX, i16::MIN]);
    let mut samples = [1000i16, -7];
    VolumeEffect { vol: ONE }.filter(&mut samples);
    assert_eq!(samples, [1000, -7]);
    VolumeEffect { vol: 0 }.filter(&mut samples);
    assert_eq!(samples, [0, 0]);
    let mut samples = [5i16, -5, i16::MIN];
    VolumeEffect { vol: -ONE }.filter(&mut samples);
    assert_eq!(samples, [-5, 5, i16::MAX]);
    let mut samples = [1i16, -1];
    VolumeEffect { vol: i64::MAX }.filter(&mut samples);
    assert_eq!(samples, [i16::MAX, i16::MIN]);
    let mut none: [i16; 0] = [];
    VolumeEffect { vol: ONE }.filter(&mut none);
}
