//! The mathematics of the deformable terrain.
//!
//! A terrain is a grid of cells, `width` along x and `depth` along z; cell
//! `(x, z)` has index `x + z * width`. Each cell has a height, a rest
//! height and a vertical velocity. Every tick the grid takes one step of a
//! damped wave equation, so that a disturbance ripples outward and dies
//! away, and the terrain settles back into its rest shape.
//!
//! Everything here is specification: [`Grid`] is the picture that the
//! contracts of [`crate::terrain::Terrain`] are stated over.
use vstd::prelude::*;
use crate::fixed::clamp;
use crate::fixed::floor_sqrt;
use crate::fixed::ONE;
use crate::fixed::trunc_div;
use crate::math::Vec3;
use crate::mesh::Vertex;
use crate::terrain::HEIGHTFIELD_THICKNESS;
use crate::terrain::HeightfieldSetup;

verus! {

/// Heights never leave `[-HEIGHT_LIMIT, HEIGHT_LIMIT]` (5000 units).
pub const HEIGHT_LIMIT: i64 = 5_000_000_000;

/// Cell velocities never leave `[-VELOCITY_LIMIT, VELOCITY_LIMIT]`.
pub const VELOCITY_LIMIT: i64 = 100_000_000_000;

/// Largest supported size of a grid cell, in world units (64).
pub const MAX_SCALE: i64 = 64_000_000;

/// Largest supported number of cells along one side of the grid.
pub const MAX_SIDE: usize = 0x7fff_ffff;

/// Each tick keeps 998 thousandths of every cell's velocity.
pub const DAMPING_PER_MILLE: i64 = 998;

/// The wave clock advances a tenth of a unit per tick.
pub const WAVE_STEPS_PER_UNIT: i64 = 10;

/// A displaced cell is pulled home by one ten-thousandth of its
/// displacement per tick.
pub const ORIGIN_PULL_DIVISOR: i64 = 10_000;

/// Speeds are divided by this to give the strength of a disturbance.
pub const SPEED_PER_AMPLITUDE: i64 = 200;

/// Amplitudes at or below this (0.03) do not disturb the terrain, and this
/// much is taken off every amplitude that does.
pub const DEAD_ZONE: i64 = 30_000;

/// Speed-derived amplitudes are cut off here (1000 units) before the dead
/// zone is taken off.
pub const AMPLITUDE_LIMIT: i64 = 1_000_000_000;

/// The disturbance lands this far (8 units) behind the player.
pub const EFFECT_OFFSET: u32 = 8_000_000;

/// A disturbance reaches this many cells from its centre in x and in z, a
/// window of seven by seven cells.
pub const WINDOW_RADIUS: u8 = 3;

/// A vertex is tinted by a fifth of the velocity of its cell.
pub const TINT_DIVISOR: i64 = 5;

/// The mathematical picture of a terrain.
pub struct Grid {
    /// Cells along x.
    pub width: int,
    /// Cells along z.
    pub depth: int,
    /// World units per cell, in micro-units.
    pub scale: int,
    /// Current height of each cell.
    pub height: Seq<int>,
    /// Rest height of each cell.
    pub origin: Seq<int>,
    /// Vertical velocity of each cell.
    pub velocity: Seq<int>,
    /// For each vertex of the render mesh, the cell it samples.
    pub vertex_cell: Seq<int>,
}

/// What damping leaves of a velocity.
pub open spec fn damp_value(v: int) -> int {
    trunc_div(v * DAMPING_PER_MILLE, 1000)
}

/// A velocity, brought back within the velocity limit.
pub open spec fn clamp_velocity(v: int) -> int {
    clamp(v, -VELOCITY_LIMIT, VELOCITY_LIMIT as int)
}

/// A height, brought back within the height limit.
pub open spec fn clamp_height(h: int) -> int {
    clamp(h, -HEIGHT_LIMIT, HEIGHT_LIMIT as int)
}

/// Velocity that a disturbance of strength `amplitude` adds to the cell
/// `(dx, dz)` away from its centre: the amplitude divided by one plus the
/// squared distance inside the window, nothing outside it.
pub open spec fn window_weight(amplitude: int, dx: int, dz: int, radius: int) -> int {
    if -radius <= dx <= radius && -radius <= dz <= radius {
        trunc_div(amplitude, 1 + dx * dx + dz * dz)
    } else {
        0
    }
}

/// Strength of the disturbance a player moving at `velocity` would cause,
/// before the cut-off and the dead zone: a two-hundredth of the horizontal
/// speed.
pub open spec fn raw_amplitude(velocity: Vec3) -> int {
    floor_sqrt(velocity.x * velocity.x + velocity.z * velocity.z) / (SPEED_PER_AMPLITUDE as int)
}

/// The terrain is disturbed when the player acts or moves fast enough.
pub open spec fn is_triggered(velocity: Vec3, action: bool) -> bool {
    action || raw_amplitude(velocity) > DEAD_ZONE
}

/// Strength of the disturbance: the raw amplitude, cut off at the limit,
/// less the dead zone.
pub open spec fn amplitude_of(velocity: Vec3) -> int {
    clamp(raw_amplitude(velocity), 0, AMPLITUDE_LIMIT as int) - DEAD_ZONE
}

/// Grid coordinate, along one axis `side` cells long, of the cell under the
/// world coordinate `at`. The grid is centred on the world's origin.
pub open spec fn cell_under(at: int, side: int, scale: int) -> int {
    (2 * at + side * scale) / (2 * scale)
}

impl Grid {
    /// The grid without cells, for cells of size `scale`.
    pub open spec fn empty(scale: int) -> Grid {
        Grid {
            width: 0,
            depth: 0,
            scale,
            height: Seq::empty(),
            origin: Seq::empty(),
            velocity: Seq::empty(),
            vertex_cell: Seq::empty(),
        }
    }

    /// Number of cells.
    pub open spec fn cells(self) -> int {
        self.width * self.depth
    }

    /// The three fields have one entry per cell, and every entry is within
    /// its limit.
    pub open spec fn wf(self) -> bool {
        &&& 0 <= self.width <= MAX_SIDE
        &&& 0 <= self.depth <= MAX_SIDE
        &&& 0 < self.scale <= MAX_SCALE
        &&& self.height.len() == self.cells()
        &&& self.origin.len() == self.cells()
        &&& self.velocity.len() == self.cells()
        &&& forall|i: int|
            0 <= i < self.cells() ==> -HEIGHT_LIMIT <= #[trigger] self.height[i] <= HEIGHT_LIMIT
        &&& forall|i: int|
            0 <= i < self.cells() ==> -HEIGHT_LIMIT <= #[trigger] self.origin[i] <= HEIGHT_LIMIT
        &&& forall|i: int|
            0 <= i < self.cells() ==> -VELOCITY_LIMIT <= #[trigger] self.velocity[i]
                <= VELOCITY_LIMIT
        &&& forall|k: int|
            0 <= k < self.vertex_cell.len() ==> 0 <= #[trigger] self.vertex_cell[k] < self.cells()
    }

    /// How far cell `i` stands above its rest height.
    pub open spec fn offset(self, i: int) -> int {
        self.height[i] - self.origin[i]
    }

    /// Sum of the offsets of the up to four axis neighbours of cell `i`; a
    /// neighbour beyond the edge of the grid counts as zero.
    pub open spec fn neighbor_sum(self, i: int) -> int {
        let x = i % self.width;
        let z = i / self.width;
        (if x > 0 {
            self.offset(i - 1)
        } else {
            0
        }) + (if z > 0 {
            self.offset(i - self.width)
        } else {
            0
        }) + (if x + 1 < self.width {
            self.offset(i + 1)
        } else {
            0
        }) + (if z + 1 < self.depth {
            self.offset(i + self.width)
        } else {
            0
        })
    }

    /// Velocity that the wave equation adds to cell `i` in one tick: a
    /// tenth of the difference between the mean neighbour offset and the
    /// cell's own.
    pub open spec fn wave_push(self, i: int) -> int {
        trunc_div(self.neighbor_sum(i) - 4 * self.offset(i), 4 * WAVE_STEPS_PER_UNIT)
    }

    /// Velocity that the pull toward the rest shape adds to cell `i` in one
    /// tick.
    pub open spec fn origin_pull(self, i: int) -> int {
        trunc_div(self.origin[i] - self.height[i], ORIGIN_PULL_DIVISOR as int)
    }

    /// The grid after damping: every velocity scaled by 0.998.
    pub open spec fn damped(self) -> Grid {
        Grid {
            velocity: Seq::new(self.velocity.len(), |i: int| damp_value(self.velocity[i])),
            ..self
        }
    }

    /// The grid after wave relaxation.
    pub open spec fn relaxed(self) -> Grid {
        Grid {
            velocity: Seq::new(
                self.velocity.len(),
                |i: int| clamp_velocity(self.velocity[i] + self.wave_push(i)),
            ),
            ..self
        }
    }

    /// The grid after the pull toward the rest shape.
    pub open spec fn pulled(self) -> Grid {
        Grid {
            velocity: Seq::new(
                self.velocity.len(),
                |i: int| clamp_velocity(self.velocity[i] + self.origin_pull(i)),
            ),
            ..self
        }
    }

    /// The grid after integration: every height moved by a tenth of its
    /// velocity.
    pub open spec fn integrated(self) -> Grid {
        Grid {
            height: Seq::new(
                self.height.len(),
                |i: int|
                    clamp_height(
                        self.height[i] + trunc_div(self.velocity[i], WAVE_STEPS_PER_UNIT as int),
                    ),
            ),
            ..self
        }
    }

    /// One tick of the wave equation with nothing injected: damping, wave
    /// relaxation, pull toward the rest shape, integration, in this order.
    pub open spec fn settled(self) -> Grid {
        self.damped().relaxed().pulled().integrated()
    }

    /// `n` ticks of the wave equation with nothing injected.
    pub open spec fn settled_times(self, n: nat) -> Grid
        decreases n,
    {
        if n == 0 {
            self
        } else {
            self.settled().settled_times((n - 1) as nat)
        }
    }

    /// Cell `i` lies in the window of the given radius around `(cx, cz)`.
    pub open spec fn in_window(self, i: int, cx: int, cz: int, radius: int) -> bool {
        &&& -radius <= i % self.width - cx <= radius
        &&& -radius <= i / self.width - cz <= radius
    }

    /// The grid after a disturbance of strength `amplitude` centred on cell
    /// `(cx, cz)`.
    pub open spec fn injected(self, cx: int, cz: int, amplitude: int, radius: int) -> Grid {
        Grid {
            velocity: Seq::new(
                self.velocity.len(),
                |i: int|
                    clamp_velocity(
                        self.velocity[i] + window_weight(
                            amplitude,
                            i % self.width - cx,
                            i / self.width - cz,
                            radius,
                        ),
                    ),
            ),
            ..self
        }
    }

    /// The grid after the player's part of a tick: disturbed eight units
    /// behind the player when the player acts or is fast, untouched
    /// otherwise.
    pub open spec fn disturbed(self, position: Vec3, velocity: Vec3, action: bool) -> Grid {
        if is_triggered(velocity, action) {
            let trail = velocity.scaled_to_spec(EFFECT_OFFSET as int);
            self.injected(
                cell_under(position.x - trail.0, self.width, self.scale),
                cell_under(position.z - trail.2, self.depth, self.scale),
                amplitude_of(velocity),
                WINDOW_RADIUS as int,
            )
        } else {
            self
        }
    }

    /// The grid after one whole tick.
    pub open spec fn ticked(self, position: Vec3, velocity: Vec3, action: bool) -> Grid {
        self.disturbed(position, velocity, action).settled()
    }

    /// The grid after `n` whole ticks under the same player.
    pub open spec fn ticked_times(self, n: nat, position: Vec3, velocity: Vec3, action: bool)
        -> Grid
        decreases n,
    {
        if n == 0 {
            self
        } else {
            self.ticked(position, velocity, action).ticked_times(
                (n - 1) as nat,
                position,
                velocity,
                action,
            )
        }
    }

    /// Height of cell `i` if `present`, zero for a neighbour beyond the edge.
    pub open spec fn height_or_zero(self, present: bool, i: int) -> int {
        if present {
            self.height[i]
        } else {
            0
        }
    }

    /// The surface normal at cell `i` before it is brought to unit length:
    /// one unit up, and across by the central differences of the
    /// neighbouring heights. A neighbour beyond the edge counts as height
    /// zero.
    pub open spec fn slope(self, i: int) -> Vec3 {
        let x = i % self.width;
        let z = i / self.width;
        Vec3 {
            x: (self.height_or_zero(x > 0, i - 1) - self.height_or_zero(
                x + 1 < self.width,
                i + 1,
            )) as i64,
            y: ONE,
            z: (self.height_or_zero(z > 0, i - self.width) - self.height_or_zero(
                z + 1 < self.depth,
                i + self.width,
            )) as i64,
        }
    }

    /// `after` is what resynchronising makes of vertex `k`, which was
    /// `before`: the height of its cell as its height, the unit normal of
    /// the surface at its cell, and a fifth of the cell's velocity as tint
    /// in all three channels. Where it stands and its texture coordinates
    /// stay.
    pub open spec fn is_resynced(self, after: Vertex, before: Vertex, k: int) -> bool {
        let cell = self.vertex_cell[k];
        let normal = self.slope(cell).scaled_to_spec(ONE as int);
        let tint = trunc_div(self.velocity[cell], TINT_DIVISOR as int);
        &&& after.position[0] == before.position[0]
        &&& after.position[1] == self.height[cell]
        &&& after.position[2] == before.position[2]
        &&& after.normal[0] == normal.0
        &&& after.normal[1] == normal.1
        &&& after.normal[2] == normal.2
        &&& crate::mesh::same_triple(after.tex_coord, before.tex_coord)
        &&& after.color_tint[0] == tint
        &&& after.color_tint[1] == tint
        &&& after.color_tint[2] == tint
    }

    /// What the engine is told of a terrain with this grid.
    pub open spec fn engine_setup(self) -> HeightfieldSetup {
        HeightfieldSetup {
            width_extent: ((self.width - 1) * self.scale) as i64,
            depth_extent: ((self.depth - 1) * self.scale) as i64,
            width_samples: self.width as usize,
            depth_samples: self.depth as usize,
            vertical_scale: ONE,
            vertical_offset: 0,
            thickness: HEIGHTFIELD_THICKNESS,
            wrap: false,
            min_height: (-HEIGHT_LIMIT) as i64,
            max_height: HEIGHT_LIMIT,
        }
    }

    /// Nothing moves and every cell is at its rest height.
    pub open spec fn at_rest(self) -> bool {
        &&& forall|i: int| 0 <= i < self.cells() ==> #[trigger] self.velocity[i] == 0
        &&& forall|i: int| 0 <= i < self.cells() ==> #[trigger] self.height[i] == self.origin[i]
    }
}

/// The entries of `s` as mathematical integers.
pub open spec fn ints(s: Seq<i64>) -> Seq<int> {
    Seq::new(s.len(), |i: int| s[i] as int)
}

/// The entries of `s` as mathematical integers.
pub open spec fn indices(s: Seq<usize>) -> Seq<int> {
    Seq::new(s.len(), |i: int| s[i] as int)
}

/// Where cell `i` lies in a grid `w` wide and `d` deep, and which of its
/// neighbours exist.
pub proof fn lemma_cell_coords(w: int, d: int, i: int)
    requires
        0 < w,
        0 <= d,
        0 <= i < w * d,
    ensures
        0 <= i % w < w,
        0 <= i / w < d,
        i == w * (i / w) + i % w,
        i / w > 0 ==> i - w >= 0,
        i % w + 1 < w ==> i + 1 < w * d,
        i / w + 1 < d ==> i + w < w * d,
{
    vstd::arithmetic::div_mod::lemma_fundamental_div_mod(i, w);
    let q = i / w;
    let r = i % w;
    assert(0 <= r < w);
    assert(q < d) by (nonlinear_arith)
        requires
            i == w * q + r,
            0 <= r,
            i < w * d,
            0 < w,
    ;
    assert(q >= 0) by (nonlinear_arith)
        requires
            i == w * q + r,
            r < w,
            0 <= i,
            0 < w,
    ;
    assert(q > 0 ==> w * q >= w) by (nonlinear_arith)
        requires
            0 < w,
    ;
    assert(w * (q + 1) <= w * d) by (nonlinear_arith)
        requires
            q + 1 <= d,
            0 < w,
    ;
    assert(w * (q + 1) == w * q + w) by (nonlinear_arith);
    assert(q + 1 < d ==> w * (q + 2) <= w * d) by (nonlinear_arith)
        requires
            0 < w,
    ;
    assert(w * (q + 2) == w * q + 2 * w) by (nonlinear_arith);
}

/// The index of cell `(x, z)` is in range and leads back to `(x, z)`.
pub proof fn lemma_cell_index(w: int, d: int, x: int, z: int)
    requires
        0 <= x < w,
        0 <= z < d,
    ensures
        0 <= x + z * w < w * d,
        (x + z * w) % w == x,
        (x + z * w) / w == z,
{
    assert(z * w + w <= d * w && z * w >= 0 && w * d == d * w) by (nonlinear_arith)
        requires
            0 <= z,
            z + 1 <= d,
            0 < w,
    ;
    vstd::arithmetic::div_mod::lemma_fundamental_div_mod_converse(x + z * w, w, z, x);
}

/// One tick leaves a terrain at rest exactly as it was: nothing drifts when
/// nothing is injected.
pub proof fn lemma_rest_is_fixed_point(g: Grid)
    requires
        g.wf(),
        g.at_rest(),
    ensures
        g.settled() == g,
{
    let a = g.damped();
    assert(a.velocity =~= g.velocity);
    assert(a == g);
    let b = a.relaxed();
    assert forall|i: int| 0 <= i < g.cells() implies #[trigger] a.wave_push(i) == 0 by {
        assert(g.cells() > 0 ==> g.width > 0) by (nonlinear_arith)
            requires
                g.cells() == g.width * g.depth,
                0 <= g.width,
        ;
        lemma_cell_coords(g.width, g.depth, i);
        assert(a.offset(i) == 0);
        if i % g.width > 0 {
            assert(a.offset(i - 1) == 0);
        }
        if i / g.width > 0 {
            assert(a.offset(i - g.width) == 0);
        }
        if i % g.width + 1 < g.width {
            assert(a.offset(i + 1) == 0);
        }
        if i / g.width + 1 < g.depth {
            assert(a.offset(i + g.width) == 0);
        }
    }
    assert(b.velocity =~= g.velocity);
    assert(b == g);
    let c = b.pulled();
    assert(c.velocity =~= g.velocity);
    assert(c == g);
    let d = c.integrated();
    assert(d.height =~= g.height);
}

/// However many ticks pass, a terrain at rest with nothing injected stays at
/// its rest shape.
pub proof fn lemma_rest_persists(g: Grid, n: nat)
    requires
        g.wf(),
        g.at_rest(),
    ensures
        g.settled_times(n) == g,
    decreases n,
{
    if n > 0 {
        lemma_rest_is_fixed_point(g);
        lemma_rest_persists(g, (n - 1) as nat);
    }
}

/// While the player neither acts nor is fast enough to disturb it, a
/// terrain at rest stays at rest, however many ticks pass.
pub proof fn lemma_idle_rest_persists(
    g: Grid,
    n: nat,
    position: Vec3,
    velocity: Vec3,
    action: bool,
)
    requires
        g.wf(),
        g.at_rest(),
        !is_triggered(velocity, action),
    ensures
        g.ticked_times(n, position, velocity, action) == g,
    decreases n,
{
    if n > 0 {
        lemma_rest_is_fixed_point(g);
        lemma_idle_rest_persists(g, (n - 1) as nat, position, velocity, action);
    }
}

/// Ticks add up: `a` ticks and then `b` ticks under the same player leave
/// the grid as `a + b` ticks do.
pub proof fn lemma_ticks_add_up(
    g: Grid,
    a: nat,
    b: nat,
    position: Vec3,
    velocity: Vec3,
    action: bool,
)
    ensures
        g.ticked_times(a, position, velocity, action).ticked_times(b, position, velocity, action)
            == g.ticked_times(a + b, position, velocity, action),
    decreases a,
{
    if a > 0 {
        lemma_ticks_add_up(
            g.ticked(position, velocity, action),
            (a - 1) as nat,
            b,
            position,
            velocity,
            action,
        );
    }
}

/// A tick keeps a well-formed grid well formed.
pub proof fn lemma_tick_keeps_wf(g: Grid, position: Vec3, velocity: Vec3, action: bool)
    requires
        g.wf(),
    ensures
        g.ticked(position, velocity, action).wf(),
{
    let d = g.disturbed(position, velocity, action);
    assert(d.wf());
    let a = d.damped();
    assert(a.wf());
    let b = a.relaxed();
    assert(b.wf());
    let c = b.pulled();
    assert(c.wf());
    let e = c.integrated();
    assert(e.wf());
}

/// A disturbance is local: it changes no height and no rest height, and it
/// leaves the velocity of every cell outside its window as it was.
pub proof fn lemma_injection_is_local(
    g: Grid,
    cx: int,
    cz: int,
    amplitude: int,
    radius: int,
    i: int,
)
    requires
        g.wf(),
        0 <= i < g.cells(),
        !g.in_window(i, cx, cz, radius),
    ensures
        g.injected(cx, cz, amplitude, radius).velocity[i] == g.velocity[i],
        g.injected(cx, cz, amplitude, radius).height == g.height,
        g.injected(cx, cz, amplitude, radius).origin == g.origin,
{
}

/// A disturbance whose window misses the grid changes nothing.
pub proof fn lemma_far_injection(g: Grid, cx: int, cz: int, amplitude: int, radius: int)
    requires
        g.wf(),
        0 <= radius,
        cx < -radius || cx >= g.width + radius || cz < -radius || cz >= g.depth + radius,
    ensures
        g.injected(cx, cz, amplitude, radius) == g,
{
    let after = g.injected(cx, cz, amplitude, radius);
    assert forall|i: int| 0 <= i < g.cells() implies #[trigger] after.velocity[i]
        == g.velocity[i] by {
        assert(g.width > 0) by (nonlinear_arith)
            requires
                0 <= i < g.width * g.depth,
                0 <= g.width,
        ;
        lemma_cell_coords(g.width, g.depth, i);
        assert(!g.in_window(i, cx, cz, radius));
    }
    assert(after.velocity =~= g.velocity);
}

} // verus!
