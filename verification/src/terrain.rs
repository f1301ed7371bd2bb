//! The deformable terrain: a grid of heights that ripples when the player
//! disturbs it and relaxes back to its rest shape.
//!
//! What each operation does to the grid is stated over
//! [`crate::grid::Grid`], the mathematical picture of a [`Terrain`].
use vstd::prelude::*;
use crate::fixed::div_trunc;
use crate::fixed::ONE;
use crate::fixed::trunc_div;
use crate::grid::AMPLITUDE_LIMIT;
use crate::grid::cell_under;
use crate::grid::clamp_height;
use crate::grid::clamp_velocity;
use crate::grid::damp_value;
use crate::grid::DAMPING_PER_MILLE;
use crate::grid::DEAD_ZONE;
use crate::grid::EFFECT_OFFSET;
use crate::grid::Grid;
use crate::grid::HEIGHT_LIMIT;
use crate::grid::indices;
use crate::grid::ints;
use crate::grid::lemma_cell_coords;
use crate::grid::lemma_cell_index;
use crate::grid::lemma_far_injection;
use crate::grid::MAX_SCALE;
use crate::grid::MAX_SIDE;
use crate::grid::ORIGIN_PULL_DIVISOR;
use crate::grid::SPEED_PER_AMPLITUDE;
use crate::grid::TINT_DIVISOR;
use crate::grid::VELOCITY_LIMIT;
use crate::grid::WAVE_STEPS_PER_UNIT;
use crate::grid::WINDOW_RADIUS;
use crate::grid::window_weight;
use crate::math::Vec3;
use crate::mesh::Vertex;

verus! {

/// Thickness the engine gives the terrain below its surface (0.1).
pub const HEIGHTFIELD_THICKNESS: i64 = 100_000;

/// What the physics engine needs to build the geometry of the terrain.
#[derive(Clone, Copy, Debug, PartialEq, Eq, Structural)]
pub struct HeightfieldSetup {
    /// Extent along x, in world units: one cell less than the grid is wide.
    pub width_extent: i64,
    /// Extent along z, in world units.
    pub depth_extent: i64,
    /// Samples along x.
    pub width_samples: usize,
    /// Samples along z.
    pub depth_samples: usize,
    /// Factor applied to every height.
    pub vertical_scale: i64,
    /// Added to every height.
    pub vertical_offset: i64,
    pub thickness: i64,
    /// Whether the terrain repeats without end.
    pub wrap: bool,
    pub min_height: i64,
    pub max_height: i64,
}

/// A deformable terrain.
pub struct Terrain {
    width: usize,
    depth: usize,
    scale: i64,
    heightfield: Vec<i64>,
    heightfield_origin: Vec<i64>,
    heightfield_velocity: Vec<i64>,
    heightfield_idx: Vec<usize>,
}

impl View for Terrain {
    type V = Grid;

    closed spec fn view(&self) -> Grid {
        Grid {
            width: self.width as int,
            depth: self.depth as int,
            scale: self.scale as int,
            height: ints(self.heightfield@),
            origin: ints(self.heightfield_origin@),
            velocity: ints(self.heightfield_velocity@),
            vertex_cell: indices(self.heightfield_idx@),
        }
    }
}

/// `true` when `scale` is a supported cell size.
pub fn valid_scale(scale: i64) -> (ok: bool)
    ensures
        ok == (0 < scale <= MAX_SCALE),
{
    0 < scale && scale <= MAX_SCALE
}

impl Terrain {
    /// The invariant of a terrain: its picture is well formed.
    pub open spec fn wf(&self) -> bool {
        self@.wf()
    }

    /// A terrain without cells.
    pub fn empty(scale: i64) -> (t: Terrain)
        requires
            0 < scale <= MAX_SCALE,
        ensures
            t.wf(),
            t@ == Grid::empty(scale as int),
    {
        let t = Terrain {
            width: 0,
            depth: 0,
            scale,
            heightfield: Vec::new(),
            heightfield_origin: Vec::new(),
            heightfield_velocity: Vec::new(),
            heightfield_idx: Vec::new(),
        };
        proof {
            assert(t@.cells() == 0);
            assert(t@.height =~= Seq::empty());
            assert(t@.origin =~= Seq::empty());
            assert(t@.velocity =~= Seq::empty());
            assert(t@.vertex_cell =~= Seq::empty());
        }
        t
    }

    /// Replaces the grid: `heights` become both the current and the rest
    /// heights, nothing moves, and `idx` says which cell each vertex of the
    /// render mesh samples.
    pub fn install(&mut self, width: usize, depth: usize, heights: Vec<i64>, idx: Vec<usize>)
        requires
            old(self).wf(),
            width <= MAX_SIDE,
            depth <= MAX_SIDE,
            heights.len() == width * depth,
            forall|i: int|
                0 <= i < heights.len() ==> -HEIGHT_LIMIT <= #[trigger] heights[i] <= HEIGHT_LIMIT,
            forall|k: int| 0 <= k < idx.len() ==> #[trigger] idx[k] < heights.len(),
        ensures
            final(self).wf(),
            final(self)@.width == width,
            final(self)@.depth == depth,
            final(self)@.scale == old(self)@.scale,
            final(self)@.height == ints(heights@),
            final(self)@.origin == ints(heights@),
            final(self)@.velocity == Seq::new(heights.len() as nat, |i: int| 0int),
            final(self)@.vertex_cell == indices(idx@),
            final(self)@.at_rest(),
    {
        let n: usize = heights.len();
        let mut origin: Vec<i64> = Vec::new();
        let mut velocity: Vec<i64> = Vec::new();
        let mut i: usize = 0;
        while i < n
            invariant
                i <= n,
                n == heights.len(),
                origin.len() == i,
                velocity.len() == i,
                forall|j: int| 0 <= j < i ==> #[trigger] origin[j] == heights[j],
                forall|j: int| 0 <= j < i ==> #[trigger] velocity[j] == 0,
            decreases n - i,
        {
            origin.push(heights[i]);
            velocity.push(0);
            i += 1;
        }
        let ghost scale = self.scale;
        self.width = width;
        self.depth = depth;
        self.heightfield = heights;
        self.heightfield_origin = origin;
        self.heightfield_velocity = velocity;
        self.heightfield_idx = idx;
        proof {
            assert(self.scale == scale);
            assert(self@.origin =~= ints(self.heightfield@));
            assert(self@.velocity =~= Seq::new(n as nat, |i: int| 0int));
        }
    }

    /// Cells along x and along z.
    pub fn resolution(&self) -> (r: (usize, usize))
        ensures
            r.0 == self@.width,
            r.1 == self@.depth,
    {
        (self.width, self.depth)
    }

    /// World units per cell.
    pub fn scale(&self) -> (s: i64)
        ensures
            s == self@.scale,
    {
        self.scale
    }

    /// Current heights, one per cell.
    pub fn heightfield(&self) -> (h: &Vec<i64>)
        ensures
            ints(h@) == self@.height,
    {
        &self.heightfield
    }

    /// Rest heights, one per cell.
    pub fn heightfield_origin(&self) -> (h: &Vec<i64>)
        ensures
            ints(h@) == self@.origin,
    {
        &self.heightfield_origin
    }

    /// Vertical velocities, one per cell.
    pub fn heightfield_velocity(&self) -> (v: &Vec<i64>)
        ensures
            ints(v@) == self@.velocity,
    {
        &self.heightfield_velocity
    }

    /// For each mesh vertex, the index of the cell it samples.
    pub fn heightfield_idx(&self) -> (idx: &Vec<usize>)
        ensures
            indices(idx@) == self@.vertex_cell,
    {
        &self.heightfield_idx
    }

    /// Height of the cell `(x, z)`. The physics engine asks this of the
    /// terrain whenever it needs a sample, so it always sees the grid as it
    /// is now.
    pub fn height_at(&self, x: usize, z: usize) -> (h: i64)
        requires
            self.wf(),
            x < self@.width,
            z < self@.depth,
        ensures
            h == self@.height[x + z * self@.width],
    {
        proof {
            lemma_cell_index(self.width as int, self.depth as int, x as int, z as int);
            assert(self@.height.len() == self.heightfield@.len());
            assert(0 <= z * self.width <= 0x7fff_ffff * 0x7fff_ffff) by (nonlinear_arith)
                requires
                    0 <= z <= 0x7fff_ffff,
                    0 <= self.width <= 0x7fff_ffff,
            ;
        }
        let n: usize = self.heightfield.len();
        let i: usize = x + z * self.width;
        assert(self@.height[i as int] == self.heightfield@[i as int]);
        self.heightfield[i]
    }

    /// What the physics engine needs to build the geometry of the terrain:
    /// a heightfield one cell less than the grid in extent, sampled once
    /// per cell, with heights taken as they are and bounded by the height
    /// limit.
    pub fn engine_setup(&self) -> (s: HeightfieldSetup)
        requires
            self.wf(),
        ensures
            s == self@.engine_setup(),
    {
        assert(-64_000_000 <= (self.width - 1) * self.scale <= 0x7fff_ffff * 64_000_000 && -64_000_000
            <= (self.depth - 1) * self.scale <= 0x7fff_ffff * 64_000_000) by (nonlinear_arith)
            requires
                0 <= self.width <= 0x7fff_ffff,
                0 <= self.depth <= 0x7fff_ffff,
                0 < self.scale <= 64_000_000,
        ;
        HeightfieldSetup {
            width_extent: ((self.width as i64) - 1) * self.scale,
            depth_extent: ((self.depth as i64) - 1) * self.scale,
            width_samples: self.width,
            depth_samples: self.depth,
            vertical_scale: ONE,
            vertical_offset: 0,
            thickness: HEIGHTFIELD_THICKNESS,
            wrap: false,
            min_height: -HEIGHT_LIMIT,
            max_height: HEIGHT_LIMIT,
        }
    }

    /// One whole tick of the terrain: the player's disturbance, then damping,
    /// wave relaxation, the pull toward the rest shape and integration.
    pub fn tick(&mut self, position: Vec3, velocity: Vec3, action: bool)
        requires
            old(self).wf(),
        ensures
            final(self).wf(),
            final(self)@ == old(self)@.ticked(position, velocity, action),
    {
        self.disturb(position, velocity, action);
        self.settle();
    }

    /// The player's part of a tick. When the player acts, or moves fast
    /// enough for the raw amplitude to exceed the dead zone, the terrain is
    /// disturbed around the cell eight units behind the player, against the
    /// direction of travel; a player at rest has no direction, and the
    /// disturbance then lands under the player.
    pub fn disturb(&mut self, position: Vec3, velocity: Vec3, action: bool)
        requires
            old(self).wf(),
        ensures
            final(self).wf(),
            final(self)@ == old(self)@.disturbed(position, velocity, action),
    {
        let speed: u64 = crate::fixed::isqrt(
            crate::math::square(velocity.x) + crate::math::square(velocity.z),
        );
        let raw: u64 = speed / (SPEED_PER_AMPLITUDE as u64);
        if !action && raw <= DEAD_ZONE as u64 {
            return ;
        }
        let capped: i64 = if raw > AMPLITUDE_LIMIT as u64 {
            AMPLITUDE_LIMIT
        } else {
            raw as i64
        };
        let amplitude: i64 = capped - DEAD_ZONE;
        let trail: Vec3 = velocity.scaled_to(EFFECT_OFFSET);
        let cx: i128 = cell_coordinate(
            (position.x as i128) - (trail.x as i128),
            self.width,
            self.scale,
        );
        let cz: i128 = cell_coordinate(
            (position.z as i128) - (trail.z as i128),
            self.depth,
            self.scale,
        );
        let w: i128 = self.width as i128;
        let d: i128 = self.depth as i128;
        let reach: i128 = WINDOW_RADIUS as i128;
        if cx < -reach || cx >= w + reach || cz < -reach || cz >= d + reach {
            proof {
                lemma_far_injection(self@, cx as int, cz as int, amplitude as int, reach as int);
            }
            return ;
        }
        self.inject(cx as i64, cz as i64, amplitude, WINDOW_RADIUS);
    }

    /// Disturbs the terrain around cell `(cx, cz)`: every cell within
    /// `radius` cells of the centre in x and in z gains `amplitude` divided
    /// by one plus its squared distance from the centre. Cells outside the
    /// window, and the parts of the window that lie off the grid, are left
    /// alone.
    pub fn inject(&mut self, cx: i64, cz: i64, amplitude: i64, radius: u8)
        requires
            old(self).wf(),
        ensures
            final(self).wf(),
            final(self)@ == old(self)@.injected(
                cx as int,
                cz as int,
                amplitude as int,
                radius as int,
            ),
    {
        let r: i64 = radius as i64;
        let w: i64 = self.width as i64;
        let d: i64 = self.depth as i64;
        let ghost g = self@;
        if cx < -r || cx >= w + r || cz < -r || cz >= d + r {
            proof {
                lemma_far_injection(g, cx as int, cz as int, amplitude as int, r as int);
            }
            return ;
        }
        if w == 0 || d == 0 {
            proof {
                assert(g.cells() == 0) by (nonlinear_arith)
                    requires
                        g.cells() == g.width * g.depth,
                        g.width == 0 || g.depth == 0,
                ;
                assert(g.injected(cx as int, cz as int, amplitude as int, r as int).velocity
                    =~= g.velocity);
            }
            return ;
        }
        let x_lo: i64 = if cx - r > 0 {
            cx - r
        } else {
            0
        };
        let x_hi: i64 = if cx + r < w - 1 {
            cx + r
        } else {
            w - 1
        };
        let z_lo: i64 = if cz - r > 0 {
            cz - r
        } else {
            0
        };
        let z_hi: i64 = if cz + r < d - 1 {
            cz + r
        } else {
            d - 1
        };
        let n: usize = self.heightfield_velocity.len();
        let ghost push = Disturbance {
            cx: cx as int,
            cz: cz as int,
            amplitude: amplitude as int,
            radius: r as int,
        };
        let mut x: i64 = x_lo;
        while x <= x_hi
            invariant
                g == old(self)@,
                push == (Disturbance {
                    cx: cx as int,
                    cz: cz as int,
                    amplitude: amplitude as int,
                    radius: r as int,
                }),
                g.wf(),
                self.wf(),
                self@.width == g.width,
                self@.depth == g.depth,
                self@.scale == g.scale,
                self@.height == g.height,
                self@.origin == g.origin,
                self@.vertex_cell == g.vertex_cell,
                n == g.cells(),
                self.heightfield_velocity@.len() == n,
                w == g.width,
                d == g.depth,
                r == radius,
                0 < w,
                0 < d,
                0 <= x_lo <= x <= x_hi + 1,
                x_hi < w,
                x_lo == (if cx - r > 0 {
                    cx - r
                } else {
                    0
                }),
                x_hi == (if cx + r < w - 1 {
                    cx + r
                } else {
                    w - 1
                }),
                z_lo == (if cz - r > 0 {
                    cz - r
                } else {
                    0
                }),
                z_hi == (if cz + r < d - 1 {
                    cz + r
                } else {
                    d - 1
                }),
                0 <= z_lo <= z_hi < d,
                -r <= cx < w + r,
                -r <= cz < d + r,
                forall|i: int|
                    0 <= i < n ==> #[trigger] self.heightfield_velocity@[i] == partly_injected(
                        g,
                        push,
                        x as int,
                        z_lo as int,
                        i,
                    ),
            decreases x_hi + 1 - x,
        {
            let mut z: i64 = z_lo;
            while z <= z_hi
                invariant
                    g == old(self)@,
                    push == (Disturbance {
                        cx: cx as int,
                        cz: cz as int,
                        amplitude: amplitude as int,
                        radius: r as int,
                    }),
                    g.wf(),
                    self.wf(),
                    self@.width == g.width,
                    self@.depth == g.depth,
                    self@.scale == g.scale,
                    self@.height == g.height,
                    self@.origin == g.origin,
                    self@.vertex_cell == g.vertex_cell,
                    n == g.cells(),
                    self.heightfield_velocity@.len() == n,
                    w == g.width,
                    d == g.depth,
                    r == radius,
                    0 < w,
                    0 < d,
                    0 <= x_lo <= x <= x_hi,
                    x_hi < w,
                    cx - r <= x <= cx + r,
                    z_lo == (if cz - r > 0 {
                        cz - r
                    } else {
                        0
                    }),
                    z_hi == (if cz + r < d - 1 {
                        cz + r
                    } else {
                        d - 1
                    }),
                    0 <= z_lo <= z <= z_hi + 1,
                    z_hi < d,
                    forall|i: int|
                        0 <= i < n ==> #[trigger] self.heightfield_velocity@[i]
                            == partly_injected(g, push, x as int, z as int, i),
                decreases z_hi + 1 - z,
            {
                proof {
                    lemma_cell_index(w as int, d as int, x as int, z as int);
                    assert(0 <= z * w <= 0x7fff_ffff * 0x7fff_ffff && z * w == w * z)
                        by (nonlinear_arith)
                        requires
                            0 <= z <= 0x7fff_ffff,
                            0 <= w <= 0x7fff_ffff,
                    ;
                }
                let p: usize = (x + z * w) as usize;
                let dx: i64 = x - cx;
                let dz: i64 = z - cz;
                assert(0 <= dx * dx <= 65025 && 0 <= dz * dz <= 65025) by (nonlinear_arith)
                    requires
                        -255 <= dx <= 255,
                        -255 <= dz <= 255,
                ;
                let weight: i64 = div_trunc(amplitude, 1 + dx * dx + dz * dz);
                let v: i64 = self.heightfield_velocity[p];
                let nv: i64 = crate::fixed::add_clamped(v, weight, VELOCITY_LIMIT);
                let ghost prev = self.heightfield_velocity@;
                self.heightfield_velocity.set(p, nv);
                proof {
                    assert(self@.height =~= g.height);
                    assert(self@.origin =~= g.origin);
                    assert(self@.vertex_cell =~= g.vertex_cell);
                    assert forall|i: int| 0 <= i < n implies #[trigger] self.heightfield_velocity@[i]
                        == partly_injected(g, push, x as int, z + 1, i) by {
                        lemma_cell_coords(w as int, d as int, i);
                        assert(prev[i] == partly_injected(g, push, x as int, z as int, i));
                        if i == p {
                            assert(g.in_window(i, cx as int, cz as int, r as int));
                            assert(prev[i] == g.velocity[i]);
                        } else {
                            assert(!(i % (w as int) == x && i / (w as int) == z));
                            assert(self.heightfield_velocity@[i] == prev[i]);
                        }
                    }
                    assert forall|j: int| 0 <= j < self@.cells() implies -VELOCITY_LIMIT
                        <= #[trigger] self@.velocity[j] <= VELOCITY_LIMIT by {
                        if j != p {
                            assert(self.heightfield_velocity@[j] == prev[j]);
                            assert(old(self)@.velocity[j] == g.velocity[j]);
                            assert(prev[j] == partly_injected(g, push, x as int, z as int, j));
                        }
                    }
                }
                z += 1;
            }
            proof {
                assert forall|i: int| 0 <= i < n implies #[trigger] self.heightfield_velocity@[i]
                    == partly_injected(g, push, x + 1, z_lo as int, i) by {
                    lemma_cell_coords(w as int, d as int, i);
                    assert(self.heightfield_velocity@[i] == partly_injected(g, push, x as int, z_hi + 1, i));
                }
            }
            x += 1;
        }
        proof {
            let target = g.injected(cx as int, cz as int, amplitude as int, r as int);
            assert forall|i: int| 0 <= i < n implies #[trigger] self@.velocity[i]
                == target.velocity[i] by {
                lemma_cell_coords(w as int, d as int, i);
                assert(self.heightfield_velocity@[i] == partly_injected(g, push, x_hi + 1, z_lo as int, i));
            }
            assert(self@.velocity =~= target.velocity);
        }
    }

    /// One tick of the wave equation with nothing injected.
    pub fn settle(&mut self)
        requires
            old(self).wf(),
        ensures
            final(self).wf(),
            final(self)@ == old(self)@.settled(),
    {
        self.damp();
        self.relax();
        self.pull_to_origin();
        self.integrate();
    }

    /// Damping: every velocity loses two thousandths.
    pub fn damp(&mut self)
        requires
            old(self).wf(),
        ensures
            final(self).wf(),
            final(self)@ == old(self)@.damped(),
    {
        let n = self.heightfield_velocity.len();
        let ghost before = self.heightfield_velocity@;
        proof {
            assert forall|j: int| 0 <= j < n implies -VELOCITY_LIMIT <= #[trigger] before[j]
                <= VELOCITY_LIMIT by {
                assert(self@.velocity[j] == before[j]);
            }
        }
        let mut i: usize = 0;
        while i < n
            invariant
                i <= n,
                n == before.len(),
                self.heightfield_velocity@.len() == n,
                self.width == old(self).width,
                self.depth == old(self).depth,
                self.scale == old(self).scale,
                self.heightfield == old(self).heightfield,
                self.heightfield_origin == old(self).heightfield_origin,
                self.heightfield_idx == old(self).heightfield_idx,
                before == old(self).heightfield_velocity@,
                forall|j: int|
                    0 <= j < n ==> -VELOCITY_LIMIT <= #[trigger] before[j] <= VELOCITY_LIMIT,
                forall|j: int|
                    0 <= j < i ==> #[trigger] self.heightfield_velocity@[j] == damp_value(
                        before[j] as int,
                    ),
                forall|j: int| i <= j < n ==> #[trigger] self.heightfield_velocity@[j] == before[j],
            decreases n - i,
        {
            let v: i64 = self.heightfield_velocity[i];
            assert(-VELOCITY_LIMIT <= before[i as int] <= VELOCITY_LIMIT);
            let nv: i64 = div_trunc(v * DAMPING_PER_MILLE, 1000);
            self.heightfield_velocity.set(i, nv);
            i += 1;
        }
        proof {
            assert(old(self)@.velocity.len() == old(self)@.cells());
            assert forall|j: int| 0 <= j < n implies -VELOCITY_LIMIT
                <= #[trigger] self.heightfield_velocity@[j] <= VELOCITY_LIMIT by {
                assert(-VELOCITY_LIMIT <= before[j] <= VELOCITY_LIMIT);
            }
            assert(self@.velocity =~= old(self)@.damped().velocity);
        }
    }

    /// Wave relaxation: every cell is pushed toward the mean offset of its
    /// neighbours.
    pub fn relax(&mut self)
        requires
            old(self).wf(),
        ensures
            final(self).wf(),
            final(self)@ == old(self)@.relaxed(),
    {
        let n = self.heightfield_velocity.len();
        let ghost g = self@;
        let mut i: usize = 0;
        while i < n
            invariant
                i <= n,
                n == g.cells(),
                g == old(self)@,
                g.wf(),
                self.wf(),
                self@.width == g.width,
                self@.depth == g.depth,
                self@.scale == g.scale,
                self@.height == g.height,
                self@.origin == g.origin,
                self@.vertex_cell == g.vertex_cell,
                self.heightfield_velocity@.len() == n,
                forall|j: int|
                    0 <= j < i ==> #[trigger] self.heightfield_velocity@[j] == clamp_velocity(
                        g.velocity[j] + g.wave_push(j),
                    ),
                forall|j: int|
                    i <= j < n ==> #[trigger] self.heightfield_velocity@[j] == g.velocity[j],
            decreases n - i,
        {
            let around: i64 = self.neighbor_sum_of(i);
            let own: i64 = self.offset_of(i);
            let push: i64 = div_trunc(around - 4 * own, 4 * WAVE_STEPS_PER_UNIT);
            let v: i64 = self.heightfield_velocity[i];
            assert(g.velocity[i as int] == v);
            let nv: i64 = crate::fixed::clamp_sym(v + push, VELOCITY_LIMIT);
            let ghost prev = self.heightfield_velocity@;
            self.heightfield_velocity.set(i, nv);
            proof {
                assert(self@.height =~= g.height);
                assert(self@.origin =~= g.origin);
                assert(self@.vertex_cell =~= g.vertex_cell);
                assert forall|j: int| 0 <= j < self@.cells() implies -VELOCITY_LIMIT
                    <= #[trigger] self@.velocity[j] <= VELOCITY_LIMIT by {
                    if j != i {
                        assert(self.heightfield_velocity@[j] == prev[j]);
                        if j < i {
                        } else {
                            assert(prev[j] == g.velocity[j]);
                        }
                    }
                }
            }
            i += 1;
        }
        proof {
            assert(self@.velocity =~= g.relaxed().velocity);
        }
    }

    /// Pull toward the rest shape: every displaced cell is nudged home.
    pub fn pull_to_origin(&mut self)
        requires
            old(self).wf(),
        ensures
            final(self).wf(),
            final(self)@ == old(self)@.pulled(),
    {
        let n = self.heightfield_velocity.len();
        let ghost g = self@;
        let mut i: usize = 0;
        while i < n
            invariant
                i <= n,
                n == g.cells(),
                g == old(self)@,
                g.wf(),
                self.wf(),
                self@.width == g.width,
                self@.depth == g.depth,
                self@.scale == g.scale,
                self@.height == g.height,
                self@.origin == g.origin,
                self@.vertex_cell == g.vertex_cell,
                self.heightfield_velocity@.len() == n,
                forall|j: int|
                    0 <= j < i ==> #[trigger] self.heightfield_velocity@[j] == clamp_velocity(
                        g.velocity[j] + g.origin_pull(j),
                    ),
                forall|j: int|
                    i <= j < n ==> #[trigger] self.heightfield_velocity@[j] == g.velocity[j],
            decreases n - i,
        {
            let own: i64 = self.offset_of(i);
            let pull: i64 = div_trunc(-own, ORIGIN_PULL_DIVISOR);
            let v: i64 = self.heightfield_velocity[i];
            assert(g.velocity[i as int] == v);
            let nv: i64 = crate::fixed::clamp_sym(v + pull, VELOCITY_LIMIT);
            let ghost prev = self.heightfield_velocity@;
            self.heightfield_velocity.set(i, nv);
            proof {
                assert(self@.height =~= g.height);
                assert(self@.origin =~= g.origin);
                assert(self@.vertex_cell =~= g.vertex_cell);
                assert forall|j: int| 0 <= j < self@.cells() implies -VELOCITY_LIMIT
                    <= #[trigger] self@.velocity[j] <= VELOCITY_LIMIT by {
                    if j != i {
                        assert(self.heightfield_velocity@[j] == prev[j]);
                        if j < i {
                        } else {
                            assert(prev[j] == g.velocity[j]);
                        }
                    }
                }
            }
            i += 1;
        }
        proof {
            assert(self@.velocity =~= g.pulled().velocity);
        }
    }

    /// Integration: every height moves by a tenth of its velocity.
    pub fn integrate(&mut self)
        requires
            old(self).wf(),
        ensures
            final(self).wf(),
            final(self)@ == old(self)@.integrated(),
    {
        let n = self.heightfield.len();
        let ghost g = self@;
        let mut i: usize = 0;
        while i < n
            invariant
                i <= n,
                n == g.cells(),
                g == old(self)@,
                g.wf(),
                self.wf(),
                self@.width == g.width,
                self@.depth == g.depth,
                self@.scale == g.scale,
                self@.velocity == g.velocity,
                self@.origin == g.origin,
                self@.vertex_cell == g.vertex_cell,
                self.heightfield@.len() == n,
                forall|j: int|
                    0 <= j < i ==> #[trigger] self.heightfield@[j] == clamp_height(
                        g.height[j] + trunc_div(g.velocity[j], 10),
                    ),
                forall|j: int| i <= j < n ==> #[trigger] self.heightfield@[j] == g.height[j],
            decreases n - i,
        {
            let v: i64 = self.heightfield_velocity[i];
            let h: i64 = self.heightfield[i];
            assert(g.velocity[i as int] == v) by {
                assert(self@.velocity[i as int] == v);
            }
            assert(g.height[i as int] == h);
            assert(-VELOCITY_LIMIT <= g.velocity[i as int] <= VELOCITY_LIMIT);
            assert(-HEIGHT_LIMIT <= g.height[i as int] <= HEIGHT_LIMIT);
            let nh: i64 = crate::fixed::clamp_sym(
                h + div_trunc(v, WAVE_STEPS_PER_UNIT),
                HEIGHT_LIMIT,
            );
            let ghost prev = self.heightfield@;
            self.heightfield.set(i, nh);
            proof {
                assert(self@.velocity =~= g.velocity);
                assert(self@.origin =~= g.origin);
                assert(self@.vertex_cell =~= g.vertex_cell);
                assert forall|j: int| 0 <= j < self@.cells() implies -HEIGHT_LIMIT
                    <= #[trigger] self@.height[j] <= HEIGHT_LIMIT by {
                    if j != i {
                        assert(self.heightfield@[j] == prev[j]);
                        if j < i {
                        } else {
                            assert(prev[j] == g.height[j]);
                        }
                    }
                }
            }
            i += 1;
        }
        proof {
            assert(self@.height =~= g.integrated().height);
        }
    }

    /// Resynchronises the vertices of the render mesh with the grid: each
    /// vertex takes the height of the cell it samples, the unit normal of
    /// the surface there, and a tint that shows how fast the cell moves.
    pub fn resync(&self, vertices: &Vec<Vertex>) -> (out: Vec<Vertex>)
        requires
            self.wf(),
            vertices.len() <= self@.vertex_cell.len(),
        ensures
            out.len() == vertices.len(),
            forall|k: int|
                0 <= k < out.len() ==> self@.is_resynced(#[trigger] out[k], vertices[k], k),
    {
        let mut out: Vec<Vertex> = Vec::new();
        let n: usize = vertices.len();
        let mut k: usize = 0;
        while k < n
            invariant
                self.wf(),
                k <= n,
                n == vertices.len(),
                n <= self@.vertex_cell.len(),
                out.len() == k,
                forall|j: int|
                    0 <= j < k ==> self@.is_resynced(#[trigger] out[j], vertices[j], j),
            decreases n - k,
        {
            assert(self@.vertex_cell[k as int] == self.heightfield_idx@[k as int]);
            let cell: usize = self.heightfield_idx[k];
            assert(self@.height[cell as int] == self.heightfield@[cell as int]);
            assert(self@.velocity[cell as int] == self.heightfield_velocity@[cell as int]);
            let normal: Vec3 = self.slope_at(cell).scaled_to(ONE as u32);
            let tint: i64 = div_trunc(self.heightfield_velocity[cell], TINT_DIVISOR);
            let before: Vertex = vertices[k];
            out.push(
                Vertex {
                    position: [before.position[0], self.heightfield[cell], before.position[2]],
                    normal: [normal.x, normal.y, normal.z],
                    tex_coord: before.tex_coord,
                    color_tint: [tint, tint, tint],
                },
            );
            k += 1;
        }
        out
    }

    /// How far cell `i` stands above its rest height.
    fn offset_of(&self, i: usize) -> (off: i64)
        requires
            self.wf(),
            i < self@.cells(),
        ensures
            off == self@.offset(i as int),
            -2 * HEIGHT_LIMIT <= off <= 2 * HEIGHT_LIMIT,
    {
        assert(self@.height[i as int] == self.heightfield@[i as int]);
        assert(self@.origin[i as int] == self.heightfield_origin@[i as int]);
        self.heightfield[i] - self.heightfield_origin[i]
    }

    /// Sum of the offsets of the neighbours of cell `i` that exist.
    fn neighbor_sum_of(&self, i: usize) -> (sum: i64)
        requires
            self.wf(),
            i < self@.cells(),
        ensures
            sum == self@.neighbor_sum(i as int),
            -8 * HEIGHT_LIMIT <= sum <= 8 * HEIGHT_LIMIT,
    {
        proof {
            assert(self.width > 0) by (nonlinear_arith)
                requires
                    i < self.width * self.depth,
            ;
            lemma_cell_coords(self.width as int, self.depth as int, i as int);
            assert(self.width * self.depth == self.heightfield@.len()) by {
                assert(self@.height.len() == self.heightfield@.len());
            }
        }
        let n: usize = self.heightfield.len();
        assert(self.width * self.depth == n);
        let x: usize = i % self.width;
        let z: usize = i / self.width;
        let mut sum: i64 = 0;
        if x > 0 {
            sum = sum + self.offset_of(i - 1);
        }
        if z > 0 {
            sum = sum + self.offset_of(i - self.width);
        }
        if x + 1 < self.width {
            sum = sum + self.offset_of(i + 1);
        }
        if z + 1 < self.depth {
            sum = sum + self.offset_of(i + self.width);
        }
        sum
    }

    /// Height of cell `i` if `present`, zero otherwise.
    fn height_if(&self, present: bool, i: usize) -> (h: i64)
        requires
            self.wf(),
            present ==> i < self@.cells(),
        ensures
            h == self@.height_or_zero(present, i as int),
            -HEIGHT_LIMIT <= h <= HEIGHT_LIMIT,
    {
        if present {
            assert(self@.height[i as int] == self.heightfield@[i as int]);
            self.heightfield[i]
        } else {
            0
        }
    }

    /// The surface normal at cell `i`, not yet of unit length.
    fn slope_at(&self, i: usize) -> (s: Vec3)
        requires
            self.wf(),
            i < self@.cells(),
        ensures
            s == self@.slope(i as int),
    {
        proof {
            assert(self.width > 0) by (nonlinear_arith)
                requires
                    i < self.width * self.depth,
            ;
            lemma_cell_coords(self.width as int, self.depth as int, i as int);
            assert(self.width * self.depth == self.heightfield@.len()) by {
                assert(self@.height.len() == self.heightfield@.len());
            }
        }
        let n: usize = self.heightfield.len();
        assert(self.width * self.depth == n);
        let x: usize = i % self.width;
        let z: usize = i / self.width;
        let left: i64 = self.height_if(x > 0, if x > 0 {
            i - 1
        } else {
            0
        });
        let right: i64 = self.height_if(x + 1 < self.width, if x + 1 < self.width {
            i + 1
        } else {
            0
        });
        let back: i64 = self.height_if(z > 0, if z > 0 {
            i - self.width
        } else {
            0
        });
        let front: i64 = self.height_if(z + 1 < self.depth, if z + 1 < self.depth {
            i + self.width
        } else {
            0
        });
        Vec3 { x: left - right, y: ONE, z: back - front }
    }
}

/// A disturbance: where it is centred, how strong it is, and how far it
/// reaches.
pub struct Disturbance {
    pub cx: int,
    pub cz: int,
    pub amplitude: int,
    pub radius: int,
}

/// Velocity of cell `i` while a disturbance is being applied column by
/// column: the cells of the window in columns before `x`, and those of
/// column `x` in rows before `z`, have received their share.
pub open spec fn partly_injected(g: Grid, d: Disturbance, x: int, z: int, i: int) -> int {
    if g.in_window(i, d.cx, d.cz, d.radius) && (i % g.width < x || (i % g.width == x && i
        / g.width < z)) {
        clamp_velocity(
            g.velocity[i] + window_weight(
                d.amplitude,
                i % g.width - d.cx,
                i / g.width - d.cz,
                d.radius,
            ),
        )
    } else {
        g.velocity[i]
    }
}

/// Grid coordinate of the cell under the world coordinate `at`.
fn cell_coordinate(at: i128, side: usize, scale: i64) -> (c: i128)
    requires
        -0x1_0000_0000_0000_0000 <= at <= 0x1_0000_0000_0000_0000,
        side <= MAX_SIDE,
        0 < scale <= MAX_SCALE,
    ensures
        c == cell_under(at as int, side as int, scale as int),
{
    assert(0 <= side * scale <= 0x7fff_ffff * 64_000_000) by (nonlinear_arith)
        requires
            0 <= side <= 0x7fff_ffff,
            0 < scale <= 64_000_000,
    ;
    let spread: i128 = (side as i128) * (scale as i128);
    crate::fixed::div_floor(2 * at + spread, 2 * (scale as i128))
}

} // verus!
