//! Particles: short-lived sprites that drift and vanish.
use vstd::prelude::*;
use crate::fixed::clamp;
use crate::fixed::ONE;
use crate::fixed::trunc_div;
use crate::math::Pnt3;
use crate::math::Vec2;
use crate::math::Vec3;
use crate::math::Vec4;

verus! {

/// Half a unit.
pub const HALF: i64 = 500_000;

/// Where particles that are not shown are parked: far below the world.
pub const HIDDEN_HEIGHT: i64 = -1_000_000_000;

/// One particle.
#[derive(Clone, Copy, Debug, PartialEq, Eq, Structural)]
pub struct Particle {
    pub position: Pnt3,
    /// Half the width and half the height of the sprite.
    pub scale: Vec2,
    pub velocity: Vec3,
    /// Red, green, blue and opacity.
    pub color: Vec4,
    /// How long the particle lives, in microseconds; forever if `None`.
    pub lifetime: Option<u64>,
    /// How long the particle has lived, in microseconds.
    pub alive: u64,
    /// Which texture of the array the sprite shows.
    pub texture: u32,
}

impl Particle {
    /// A white half-unit sprite at the origin, at rest, that lives forever.
    pub open spec fn plain() -> Particle {
        Particle {
            position: Pnt3 { x: 0, y: 0, z: 0 },
            scale: Vec2 { x: HALF, y: HALF },
            velocity: Vec3 { x: 0, y: 0, z: 0 },
            color: Vec4 { x: ONE, y: ONE, z: ONE, w: ONE },
            lifetime: None,
            alive: 0,
            texture: 0,
        }
    }

    /// The particle after `dt` microseconds: moved by its velocity, and
    /// that much older. Positions stop at the ends of the number range, and
    /// so does the age.
    pub open spec fn aged(self, dt: u64) -> Particle {
        Particle {
            position: Pnt3 {
                x: drifted(self.position.x, self.velocity.x, dt),
                y: drifted(self.position.y, self.velocity.y, dt),
                z: drifted(self.position.z, self.velocity.z, dt),
            },
            alive: if self.alive + dt > u64::MAX {
                u64::MAX
            } else {
                (self.alive + dt) as u64
            },
            ..self
        }
    }

    /// The particle has not outlived its lifetime.
    pub open spec fn lives(self) -> bool {
        match self.lifetime {
            Some(lifetime) => self.alive <= lifetime,
            None => true,
        }
    }
}

/// A coordinate after `dt` microseconds at velocity `v`.
pub open spec fn drifted(p: i64, v: i64, dt: u64) -> i64 {
    clamp(p + trunc_div(v * dt, ONE as int), i64::MIN as int, i64::MAX as int) as i64
}

impl Default for Particle {
    fn default() -> (p: Particle)
        ensures
            p == Particle::plain(),
    {
        Particle {
            position: Pnt3 { x: 0, y: 0, z: 0 },
            scale: Vec2 { x: HALF, y: HALF },
            velocity: Vec3 { x: 0, y: 0, z: 0 },
            color: Vec4 { x: ONE, y: ONE, z: ONE, w: ONE },
            lifetime: None,
            alive: 0,
            texture: 0,
        }
    }
}

/// One entry of the vertex buffer that the particles are drawn from.
#[derive(Clone, Copy, Debug, PartialEq, Eq, Structural)]
pub struct ParticleVertex {
    pub position: Pnt3,
    pub scale: Vec2,
    pub color: Vec4,
    pub tex: u32,
}

/// A buffer entry that was never written: all zero.
pub open spec fn blank() -> ParticleVertex {
    ParticleVertex {
        position: Pnt3 { x: 0, y: 0, z: 0 },
        scale: Vec2 { x: 0, y: 0 },
        color: Vec4 { x: 0, y: 0, z: 0, w: 0 },
        tex: 0,
    }
}

/// The buffer entry that shows a particle.
pub open spec fn shown(p: Particle) -> ParticleVertex {
    ParticleVertex { position: p.position, scale: p.scale, color: p.color, tex: p.texture }
}

/// A buffer entry, parked out of sight; the rest of it stays as it was.
pub open spec fn hidden(v: ParticleVertex) -> ParticleVertex {
    ParticleVertex { position: Pnt3 { x: 0, y: HIDDEN_HEIGHT, z: 0 }, ..v }
}

/// The particles that are still alive once all have aged by `dt`, in
/// their old order.
pub open spec fn survivors(particles: Seq<Particle>, dt: u64) -> Seq<Particle>
    decreases particles.len(),
{
    if particles.len() == 0 {
        Seq::empty()
    } else {
        let rest = survivors(particles.drop_last(), dt);
        if particles.last().aged(dt).lives() {
            rest.push(particles.last().aged(dt))
        } else {
            rest
        }
    }
}

fn drift(p: i64, v: i64, dt: u64) -> (r: i64)
    ensures
        r == drifted(p, v, dt),
{
    assert(-0x8000_0000_0000_0000 * 0xffff_ffff_ffff_ffff <= v * dt <= 0x8000_0000_0000_0000
        * 0xffff_ffff_ffff_ffff) by (nonlinear_arith)
        requires
            -0x8000_0000_0000_0000 <= v <= 0x8000_0000_0000_0000,
            0 <= dt <= 0xffff_ffff_ffff_ffff,
    ;
    let step: i128 = ((v as i128) * (dt as i128)) / (ONE as i128);
    let moved: i128 = (p as i128) + step;
    if moved < i64::MIN as i128 {
        i64::MIN
    } else if moved > i64::MAX as i128 {
        i64::MAX
    } else {
        moved as i64
    }
}

fn age(p: &Particle, dt: u64) -> (r: Particle)
    ensures
        r == p.aged(dt),
{
    Particle {
        position: Pnt3 {
            x: drift(p.position.x, p.velocity.x, dt),
            y: drift(p.position.y, p.velocity.y, dt),
            z: drift(p.position.z, p.velocity.z, dt),
        },
        scale: p.scale,
        velocity: p.velocity,
        color: p.color,
        lifetime: p.lifetime,
        alive: if p.alive > u64::MAX - dt {
            u64::MAX
        } else {
            p.alive + dt
        },
        texture: p.texture,
    }
}

fn still_lives(p: &Particle) -> (r: bool)
    ensures
        r == p.lives(),
{
    match p.lifetime {
        Some(lifetime) => p.alive <= lifetime,
        None => true,
    }
}

/// The particles of the game, and the vertex buffer they are drawn from.
pub struct Particles {
    particles: Vec<Particle>,
    buffer: Vec<ParticleVertex>,
}

impl Particles {
    /// The particles, oldest first.
    pub closed spec fn particles(&self) -> Seq<Particle> {
        self.particles@
    }

    /// The vertex buffer as it was last written.
    pub closed spec fn buffer(&self) -> Seq<ParticleVertex> {
        self.buffer@
    }

    /// No particles yet, and a buffer for `max_particles` of them, every
    /// entry blank.
    pub fn new(max_particles: usize) -> (p: Particles)
        ensures
            p.particles().len() == 0,
            p.buffer() == Seq::new(max_particles as nat, |i: int| blank()),
    {
        let mut buffer: Vec<ParticleVertex> = Vec::new();
        let mut i: usize = 0;
        while i < max_particles
            invariant
                i <= max_particles,
                buffer.len() == i,
                forall|j: int| 0 <= j < i ==> #[trigger] buffer[j] == blank(),
            decreases max_particles - i,
        {
            buffer.push(
                ParticleVertex {
                    position: Pnt3 { x: 0, y: 0, z: 0 },
                    scale: Vec2 { x: 0, y: 0 },
                    color: Vec4 { x: 0, y: 0, z: 0, w: 0 },
                    tex: 0,
                },
            );
            i += 1;
        }
        proof {
            assert(buffer@ =~= Seq::new(max_particles as nat, |i: int| blank()));
        }
        Particles { particles: Vec::new(), buffer }
    }

    /// Adds a particle.
    pub fn add(&mut self, particle: Particle)
        ensures
            final(self).particles() == old(self).particles().push(particle),
            final(self).buffer() == old(self).buffer(),
    {
        self.particles.push(particle);
    }

    /// The vertex buffer, for the host to upload.
    pub fn vertices(&self) -> (b: &Vec<ParticleVertex>)
        ensures
            b@ == self.buffer(),
    {
        &self.buffer
    }

    /// Number of particles alive.
    pub fn count(&self) -> (n: usize)
        ensures
            n == self.particles().len(),
    {
        self.particles.len()
    }

    /// Advances every particle by `dt` microseconds, drops those that have
    /// outlived their lifetime, and rewrites the vertex buffer: its first
    /// entries show the particles, oldest first, as far as there is room;
    /// the entries behind them are parked out of sight.
    pub fn step(&mut self, dt: u64)
        ensures
            final(self).particles() == survivors(old(self).particles(), dt),
            final(self).buffer().len() == old(self).buffer().len(),
            forall|i: int|
                0 <= i < final(self).buffer().len() ==> #[trigger] final(self).buffer()[i] == (
                if i < final(self).particles().len() {
                    shown(final(self).particles()[i])
                } else {
                    hidden(old(self).buffer()[i])
                }),
    {
        let mut kept: Vec<Particle> = Vec::new();
        let n: usize = self.particles.len();
        let mut i: usize = 0;
        proof {
            assert(self.particles@.subrange(0, 0) =~= Seq::empty());
        }
        while i < n
            invariant
                i <= n,
                n == self.particles.len(),
                self.particles == old(self).particles,
                self.buffer == old(self).buffer,
                kept@ == survivors(self.particles@.subrange(0, i as int), dt),
            decreases n - i,
        {
            proof {
                assert(self.particles@.subrange(0, i + 1).drop_last() =~= self.particles@.subrange(
                    0,
                    i as int,
                ));
            }
            let p: Particle = age(&self.particles[i], dt);
            if still_lives(&p) {
                kept.push(p);
            }
            i += 1;
        }
        proof {
            assert(self.particles@.subrange(0, n as int) =~= self.particles@);
        }
        self.particles = kept;
        let m: usize = self.buffer.len();
        let mut k: usize = 0;
        while k < m
            invariant
                k <= m,
                m == self.buffer.len(),
                m == old(self).buffer@.len(),
                self.particles@ == survivors(old(self).particles(), dt),
                forall|j: int|
                    0 <= j < k ==> #[trigger] self.buffer@[j] == (if j < self.particles@.len() {
                        shown(self.particles@[j])
                    } else {
                        hidden(old(self).buffer@[j])
                    }),
                forall|j: int| k <= j < m ==> #[trigger] self.buffer@[j] == old(self).buffer@[j],
            decreases m - k,
        {
            let entry: ParticleVertex = if k < self.particles.len() {
                let p: Particle = self.particles[k];
                ParticleVertex { position: p.position, scale: p.scale, color: p.color, tex: p.texture }
            } else {
                let v: ParticleVertex = self.buffer[k];
                ParticleVertex {
                    position: Pnt3 { x: 0, y: HIDDEN_HEIGHT, z: 0 },
                    scale: v.scale,
                    color: v.color,
                    tex: v.tex,
                }
            };
            self.buffer.set(k, entry);
            k += 1;
        }
    }
}

} // verus!
