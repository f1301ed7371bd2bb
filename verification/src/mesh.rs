//! Render meshes as the simulation sees them: lists of vertices mirrored on
//! the host side, so that only what changed needs to travel to the GPU.
use vstd::prelude::*;
use crate::grid::HEIGHT_LIMIT;
use crate::grid::lemma_cell_index;
use crate::grid::MAX_SCALE;
use crate::heightmap::decode_heights;
use crate::heightmap::HeightMap;
use crate::math::Pnt3;
use crate::math::Vec3;

verus! {

/// One vertex of a render mesh.
#[derive(Clone, Copy, Debug)]
pub struct Vertex {
    pub position: [i64; 3],
    pub normal: [i64; 3],
    pub tex_coord: [i64; 3],
    pub color_tint: [i64; 3],
}

/// Three numbers are the same three numbers.
pub open spec fn same_triple(a: [i64; 3], b: [i64; 3]) -> bool {
    a[0] == b[0] && a[1] == b[1] && a[2] == b[2]
}

fn triples_equal(a: &[i64; 3], b: &[i64; 3]) -> (r: bool)
    ensures
        r == same_triple(*a, *b),
{
    a[0] == b[0] && a[1] == b[1] && a[2] == b[2]
}

impl Vertex {
    /// Both vertices carry the same numbers in every attribute.
    pub open spec fn same(self, other: Vertex) -> bool {
        &&& same_triple(self.position, other.position)
        &&& same_triple(self.normal, other.normal)
        &&& same_triple(self.tex_coord, other.tex_coord)
        &&& same_triple(self.color_tint, other.color_tint)
    }

    /// `true` when any attribute of the two vertices differs.
    pub fn differs(&self, other: &Vertex) -> (r: bool)
        ensures
            r == !self.same(*other),
    {
        !(triples_equal(&self.position, &other.position) && triples_equal(
            &self.normal,
            &other.normal,
        ) && triples_equal(&self.tex_coord, &other.tex_coord) && triples_equal(
            &self.color_tint,
            &other.color_tint,
        ))
    }
}

/// `v` is the vertex made of a position, a normal and a texture coordinate,
/// with no tint.
pub open spec fn is_vertex_of(p: Pnt3, n: Vec3, t: Pnt3, v: Vertex) -> bool {
    &&& v.position[0] == p.x && v.position[1] == p.y && v.position[2] == p.z
    &&& v.normal[0] == n.x && v.normal[1] == n.y && v.normal[2] == n.z
    &&& v.tex_coord[0] == t.x && v.tex_coord[1] == t.y && v.tex_coord[2] == t.z
    &&& v.color_tint[0] == 0 && v.color_tint[1] == 0 && v.color_tint[2] == 0
}

/// The shortest of three lengths.
pub open spec fn shortest(a: int, b: int, c: int) -> int {
    if a <= b && a <= c {
        a
    } else if b <= c {
        b
    } else {
        c
    }
}

/// Zips positions, normals and texture coordinates into vertices; what one
/// list has beyond the shortest is dropped.
pub fn build_vertices(positions: &Vec<Pnt3>, normals: &Vec<Vec3>, texture_coordinates: &Vec<Pnt3>)
    -> (vs: Vec<Vertex>)
    ensures
        vs.len() == shortest(
            positions.len() as int,
            normals.len() as int,
            texture_coordinates.len() as int,
        ),
        forall|i: int|
            0 <= i < vs.len() ==> is_vertex_of(
                positions[i],
                normals[i],
                texture_coordinates[i],
                #[trigger] vs[i],
            ),
{
    let mut vs: Vec<Vertex> = Vec::new();
    let mut i: usize = 0;
    while i < positions.len() && i < normals.len() && i < texture_coordinates.len()
        invariant
            vs.len() == i,
            i <= positions.len(),
            i <= normals.len(),
            i <= texture_coordinates.len(),
            forall|j: int|
                0 <= j < i ==> is_vertex_of(
                    positions[j],
                    normals[j],
                    texture_coordinates[j],
                    #[trigger] vs[j],
                ),
        decreases positions.len() - i,
    {
        let p = positions[i];
        let n = normals[i];
        let t = texture_coordinates[i];
        vs.push(
            Vertex {
                position: [p.x, p.y, p.z],
                normal: [n.x, n.y, n.z],
                tex_coord: [t.x, t.y, t.z],
                color_tint: [0, 0, 0],
            },
        );
        i += 1;
    }
    vs
}


/// How far along x the `c`-th vertex of a quad lies from the quad's first
/// corner. A quad is two triangles, drawn through its corners in the order
/// (0,0), (1,0), (0,1) and (1,0), (1,1), (0,1).
pub open spec fn corner_dx(c: int) -> int {
    if c == 1 || c == 3 || c == 4 {
        1
    } else {
        0
    }
}

/// How far along z the `c`-th vertex of a quad lies from the quad's first
/// corner.
pub open spec fn corner_dz(c: int) -> int {
    if c == 2 || c == 4 || c == 5 {
        1
    } else {
        0
    }
}

/// Number of quads in the mesh of a grid `w` by `d`.
pub open spec fn quad_count(w: int, d: int) -> int {
    if w >= 1 && d >= 1 {
        (w - 1) * (d - 1)
    } else {
        0
    }
}

/// Where the `c`-th vertex of the quad at `(x, z)` stands in the vertex
/// list of a terrain mesh: quads are laid out column by column, six
/// vertices each.
pub open spec fn vertex_index(d: int, x: int, z: int, c: int) -> int {
    6 * (x * (d - 1) + z) + c
}

/// The grid cell sampled by the `c`-th vertex of the quad at `(x, z)`.
pub open spec fn vertex_cell(w: int, x: int, z: int, c: int) -> int {
    (x + corner_dx(c)) + (z + corner_dz(c)) * w
}

/// `v` is the `c`-th vertex of the quad at `(x, z)` in the mesh of a terrain
/// `w` by `d` cells of size `scale`: it stands on its cell, with the grid
/// centred on the origin, at the height of that cell; its texture
/// coordinates run from 0 to 1 across the grid; it has no normal and no
/// tint yet.
pub open spec fn is_terrain_vertex(
    v: Vertex,
    w: int,
    d: int,
    scale: int,
    heights: Seq<int>,
    x: int,
    z: int,
    c: int,
) -> bool {
    &&& v.position[0] == (x + corner_dx(c)) * scale - (scale * (w - 1)) / 2
    &&& v.position[1] == heights[vertex_cell(w, x, z, c)]
    &&& v.position[2] == (z + corner_dz(c)) * scale - (scale * (d - 1)) / 2
    &&& v.normal[0] == 0 && v.normal[1] == 0 && v.normal[2] == 0
    &&& v.tex_coord[0] == (x * 1_000_000) / w + corner_dx(c) * (1_000_000int / w)
    &&& v.tex_coord[1] == (z * 1_000_000) / d + corner_dz(c) * (1_000_000int / w)
    &&& v.tex_coord[2] == 0
    &&& v.color_tint[0] == 0 && v.color_tint[1] == 0 && v.color_tint[2] == 0
}

/// `heights`, `cells` and `vertices` are the terrain that the source image
/// describes for cells of size `scale`: one height per texel, decoded from
/// the first byte of the texel, and the mesh that spans the grid, with the
/// cell that each of its vertices samples.
pub open spec fn is_landscape(
    texture: &HeightMap,
    scale: int,
    heights: Seq<int>,
    cells: Seq<int>,
    vertices: Seq<Vertex>,
) -> bool {
    let w = texture.width as int;
    let d = texture.height as int;
    &&& heights.len() == w * d
    &&& forall|i: int|
        0 <= i < heights.len() ==> #[trigger] heights[i] == crate::heightmap::decode_height(
            texture.data[4 * i] as int,
            scale,
        )
    &&& vertices.len() == 6 * quad_count(w, d)
    &&& cells.len() == vertices.len()
    &&& forall|x: int, z: int, c: int|
        #![trigger vertex_index(d, x, z, c)]
        0 <= x && x + 1 < w && 0 <= z && z + 1 < d && 0 <= c < 6 ==> {
            let k = vertex_index(d, x, z, c);
            &&& 0 <= k < cells.len()
            &&& cells[k] == vertex_cell(w, x, z, c)
            &&& is_terrain_vertex(vertices[k], w, d, scale, heights, x, z, c)
        }
}

/// The `c`-th vertex of the quad at `(x, z)`, and the cell it samples.
fn terrain_corner(heights: &Vec<i64>, w: usize, d: usize, scale: i64, x: usize, z: usize, c: u8)
    -> (r: (Vertex, usize))
    requires
        w <= 0x7fff_ffff,
        d <= 0x7fff_ffff,
        0 < scale <= MAX_SCALE,
        heights.len() == w * d,
        x + 1 < w,
        z + 1 < d,
        c < 6,
    ensures
        r.1 == vertex_cell(w as int, x as int, z as int, c as int),
        r.1 < w * d,
        is_terrain_vertex(
            r.0,
            w as int,
            d as int,
            scale as int,
            crate::grid::ints(heights@),
            x as int,
            z as int,
            c as int,
        ),
{
    let dx: usize = if c == 1 || c == 3 || c == 4 {
        1
    } else {
        0
    };
    let dz: usize = if c == 2 || c == 4 || c == 5 {
        1
    } else {
        0
    };
    let gx: usize = x + dx;
    let gz: usize = z + dz;
    proof {
        lemma_cell_index(w as int, d as int, gx as int, gz as int);
        assert(0 <= gz * w <= 0x7fff_ffff * 0x7fff_ffff) by (nonlinear_arith)
            requires
                0 <= gz <= 0x7fff_ffff,
                0 <= w <= 0x7fff_ffff,
        ;
        assert(0 <= gx * scale <= 0x7fff_ffff * 64_000_000 && 0 <= gz * scale <= 0x7fff_ffff
            * 64_000_000 && 0 <= scale * (w - 1) <= 0x7fff_ffff * 64_000_000 && 0 <= scale * (d
            - 1) <= 0x7fff_ffff * 64_000_000) by (nonlinear_arith)
            requires
                0 <= gx <= 0x7fff_ffff,
                0 <= gz <= 0x7fff_ffff,
                1 <= w <= 0x7fff_ffff,
                1 <= d <= 0x7fff_ffff,
                0 < scale <= 64_000_000,
        ;
    }
    let cell: usize = gx + gz * w;
    let half_x: i64 = (scale * ((w - 1) as i64)) / 2;
    let half_z: i64 = (scale * ((d - 1) as i64)) / 2;
    let step: i64 = 1_000_000 / (w as i64);
    let tx: i64 = ((x as i64) * 1_000_000) / (w as i64) + (dx as i64) * step;
    let tz: i64 = ((z as i64) * 1_000_000) / (d as i64) + (dz as i64) * step;
    let v = Vertex {
        position: [(gx as i64) * scale - half_x, heights[cell], (gz as i64) * scale - half_z],
        normal: [0, 0, 0],
        tex_coord: [tx, tz, 0],
        color_tint: [0, 0, 0],
    };
    (v, cell)
}

/// Half the width of the cube that the sky is drawn on (10).
pub const SKY_SIZE: i64 = 10_000_000;

/// Whether the `j`-th vertex of a face of the sky stands on the right of
/// the face. A face is two triangles, through its corners top left, bottom
/// left, top right and top right, bottom left, bottom right.
pub open spec fn sky_right(j: int) -> bool {
    j == 2 || j == 3 || j == 5
}

/// Whether the `j`-th vertex of a face of the sky stands at the bottom of
/// the face.
pub open spec fn sky_bottom(j: int) -> bool {
    j == 1 || j == 4 || j == 5
}

/// `-SKY_SIZE` or `SKY_SIZE`.
pub open spec fn sky_side(far: bool) -> i64 {
    if far {
        SKY_SIZE
    } else {
        (-SKY_SIZE) as i64
    }
}

/// Where the `j`-th vertex of face `f` of the sky stands. The faces are
/// those at low x, high x, low z, high z, low y and high y, each seen from
/// inside the cube.
pub open spec fn sky_position(f: int, j: int) -> [i64; 3] {
    let right = sky_right(j);
    let high = !sky_bottom(j);
    if f == 0 {
        [sky_side(false), sky_side(high), sky_side(!right)]
    } else if f == 1 {
        [sky_side(true), sky_side(high), sky_side(right)]
    } else if f == 2 {
        [sky_side(right), sky_side(high), sky_side(false)]
    } else if f == 3 {
        [sky_side(!right), sky_side(high), sky_side(true)]
    } else if f == 4 {
        [sky_side(right), sky_side(false), sky_side(!high)]
    } else {
        [sky_side(right), sky_side(true), sky_side(high)]
    }
}

/// The normal of face `f` of the sky: into the cube, as long as the cube
/// is wide.
pub open spec fn sky_normal(f: int) -> [i64; 3] {
    if f == 0 {
        [sky_side(true), 0, 0]
    } else if f == 1 {
        [sky_side(false), 0, 0]
    } else if f == 2 {
        [0, 0, sky_side(true)]
    } else if f == 3 {
        [0, 0, sky_side(false)]
    } else if f == 4 {
        [0, sky_side(true), 0]
    } else {
        [0, sky_side(false), 0]
    }
}

/// The layer of the texture array that face `f` of the sky shows.
pub open spec fn sky_layer(f: int) -> i64 {
    if f == 0 {
        0
    } else if f == 1 {
        1_000_000
    } else if f == 2 {
        5_000_000
    } else if f == 3 {
        4_000_000
    } else if f == 4 {
        2_000_000
    } else {
        3_000_000
    }
}

/// `v` is the `j`-th vertex of face `f` of the sky.
pub open spec fn is_sky_vertex(v: Vertex, f: int, j: int) -> bool {
    &&& same_triple(v.position, sky_position(f, j))
    &&& same_triple(v.normal, sky_normal(f))
    &&& v.tex_coord[0] == (if sky_right(j) {
        1_000_000i64
    } else {
        0
    })
    &&& v.tex_coord[1] == (if sky_bottom(j) {
        0
    } else {
        1_000_000i64
    })
    &&& v.tex_coord[2] == sky_layer(f)
    &&& v.color_tint[0] == 0 && v.color_tint[1] == 0 && v.color_tint[2] == 0
}

fn side(far: bool) -> (r: i64)
    ensures
        r == sky_side(far),
{
    if far {
        SKY_SIZE
    } else {
        -SKY_SIZE
    }
}

/// The `j`-th vertex of face `f` of the sky.
fn sky_vertex(f: usize, j: usize) -> (v: Vertex)
    requires
        f < 6,
        j < 6,
    ensures
        is_sky_vertex(v, f as int, j as int),
{
    let right: bool = j == 2 || j == 3 || j == 5;
    let high: bool = !(j == 1 || j == 4 || j == 5);
    let position: [i64; 3] = if f == 0 {
        [side(false), side(high), side(!right)]
    } else if f == 1 {
        [side(true), side(high), side(right)]
    } else if f == 2 {
        [side(right), side(high), side(false)]
    } else if f == 3 {
        [side(!right), side(high), side(true)]
    } else if f == 4 {
        [side(right), side(false), side(!high)]
    } else {
        [side(right), side(true), side(high)]
    };
    let normal: [i64; 3] = if f == 0 {
        [side(true), 0, 0]
    } else if f == 1 {
        [side(false), 0, 0]
    } else if f == 2 {
        [0, 0, side(true)]
    } else if f == 3 {
        [0, 0, side(false)]
    } else if f == 4 {
        [0, side(true), 0]
    } else {
        [0, side(false), 0]
    };
    let layer: i64 = if f == 0 {
        0
    } else if f == 1 {
        1_000_000
    } else if f == 2 {
        5_000_000
    } else if f == 3 {
        4_000_000
    } else if f == 4 {
        2_000_000
    } else {
        3_000_000
    };
    Vertex {
        position,
        normal,
        tex_coord: [
            if right {
                1_000_000
            } else {
                0
            },
            if high {
                1_000_000
            } else {
                0
            },
            layer,
        ],
        color_tint: [0, 0, 0],
    }
}

/// A render mesh. The vertex buffer itself lives on the GPU; a mesh that
/// retains its vertices keeps a mirror of what the GPU holds, and the
/// vertices it was loaded with.
pub struct Mesh {
    count: usize,
    gpu_clone: Option<Vec<Vertex>>,
    orig_buffer: Option<Vec<Vertex>>,
}

/// Index `i` lies in one of the half-open ranges.
pub open spec fn covered(ranges: Seq<(usize, usize)>, i: int) -> bool {
    exists|r: int| 0 <= r < ranges.len() && (#[trigger] ranges[r]).0 <= i < ranges[r].1
}

/// The ranges are the maximal runs of indices below `len` at which `new`
/// differs from `old`: each is non-empty and in bounds, they come in
/// ascending order with a gap between any two, and together they cover
/// exactly the indices that differ.
pub open spec fn is_dirty_runs(
    ranges: Seq<(usize, usize)>,
    old: Seq<Vertex>,
    new: Seq<Vertex>,
    len: int,
) -> bool {
    &&& forall|r: int|
        0 <= r < ranges.len() ==> (#[trigger] ranges[r]).0 < ranges[r].1 && ranges[r].1 <= len
    &&& forall|r: int|
        0 <= r && r + 1 < ranges.len() ==> (#[trigger] ranges[r]).1 < ranges[r + 1].0
    &&& forall|i: int| 0 <= i < len ==> (covered(ranges, i) <==> !(#[trigger] new[i]).same(old[i]))
}

/// The dirty runs are all that has to be sent: a buffer that holds `old`
/// and is overwritten with `new` within the runs holds, vertex for vertex,
/// what `new` holds.
pub proof fn lemma_dirty_runs_suffice(
    ranges: Seq<(usize, usize)>,
    old: Seq<Vertex>,
    new: Seq<Vertex>,
    len: int,
    i: int,
)
    requires
        is_dirty_runs(ranges, old, new, len),
        0 <= i < len,
    ensures
        (if covered(ranges, i) {
            new[i]
        } else {
            old[i]
        }).same(new[i]),
{
    assert(covered(ranges, i) <==> !new[i].same(old[i]));
}

impl Mesh {
    /// Number of vertices in the GPU buffer.
    pub closed spec fn count_spec(&self) -> nat {
        self.count as nat
    }

    /// What the GPU holds, if the mesh retains its vertices.
    pub closed spec fn mirror(&self) -> Option<Seq<Vertex>> {
        match self.gpu_clone {
            Some(v) => Some(v@),
            None => None,
        }
    }

    /// The vertices the mesh was loaded with, if it retains them.
    pub closed spec fn loaded(&self) -> Option<Seq<Vertex>> {
        match self.orig_buffer {
            Some(v) => Some(v@),
            None => None,
        }
    }

    /// A retained mirror has one vertex per vertex of the GPU buffer.
    pub open spec fn wf(&self) -> bool {
        self.mirror() matches Some(m) ==> m.len() == self.count_spec()
    }

    /// Builds a mesh from positions, normals and texture coordinates. The
    /// vertices come back with it, for the host to upload; with `retain` the
    /// mesh keeps them as well, twice: as they are on the GPU, and as they
    /// were loaded.
    pub fn new(
        positions: &Vec<Pnt3>,
        normals: &Vec<Vec3>,
        texture_coordinates: &Vec<Pnt3>,
        retain: bool,
    ) -> (r: (Mesh, Vec<Vertex>))
        ensures
            r.0.wf(),
            r.0.count_spec() == r.1.len(),
            r.1.len() == shortest(
                positions.len() as int,
                normals.len() as int,
                texture_coordinates.len() as int,
            ),
            forall|i: int|
                0 <= i < r.1.len() ==> is_vertex_of(
                    positions[i],
                    normals[i],
                    texture_coordinates[i],
                    #[trigger] r.1[i],
                ),
            retain ==> r.0.mirror() == Some(r.1@) && r.0.loaded() == Some(r.1@),
            !retain ==> r.0.mirror().is_none() && r.0.loaded().is_none(),
    {
        let vs = build_vertices(positions, normals, texture_coordinates);
        let mesh = Mesh::from_vertices(&vs, retain);
        (mesh, vs)
    }

    /// Builds the terrain that a source image describes: the mesh, the
    /// resolution of the grid, the height of every cell and, for every
    /// vertex of the mesh, the cell it samples.
    ///
    /// The grid has one cell per texel. The mesh spans the grid with one
    /// quad between any four neighbouring cells, two triangles each, and
    /// retains its vertices.
    pub fn from_texture(texture: &HeightMap, scale: i64) -> (r: (
        Mesh,
        (usize, usize),
        Vec<i64>,
        Vec<usize>,
    ))
        requires
            texture.wf(),
            0 < scale <= MAX_SCALE,
        ensures
            r.0.wf(),
            r.0.mirror().is_some(),
            r.0.loaded() == r.0.mirror(),
            r.0.count_spec() == r.3.len(),
            (r.1).0 == texture.width,
            (r.1).1 == texture.height,
            is_landscape(
                texture,
                scale as int,
                crate::grid::ints(r.2@),
                crate::grid::indices(r.3@),
                r.0.mirror().unwrap(),
            ),
            forall|i: int| 0 <= i < r.2.len() ==> -HEIGHT_LIMIT <= #[trigger] r.2[i] <= HEIGHT_LIMIT,
            forall|k: int| 0 <= k < r.3.len() ==> #[trigger] r.3[k] < r.2.len(),
    {
        let w: usize = texture.width as usize;
        let d: usize = texture.height as usize;
        let heights: Vec<i64> = decode_heights(texture, scale);
        let mut verts: Vec<Vertex> = Vec::new();
        let mut idx: Vec<usize> = Vec::new();
        if w >= 1 && d >= 1 {
            let mut x: usize = 0;
            while x + 1 < w
                invariant
                    1 <= w <= 0x7fff_ffff,
                    1 <= d <= 0x7fff_ffff,
                    0 < scale <= MAX_SCALE,
                    heights.len() == w * d,
                    x + 1 <= w,
                    verts.len() == 6 * (x * (d - 1)),
                    idx.len() == verts.len(),
                    forall|k: int| 0 <= k < idx.len() ==> #[trigger] idx[k] < heights.len(),
                    forall|px: int, pz: int, pc: int|
                        #![trigger vertex_index(d as int, px, pz, pc)]
                        0 <= px < x && 0 <= pz && pz + 1 < d && 0 <= pc < 6 ==> {
                            let k = vertex_index(d as int, px, pz, pc);
                            &&& 0 <= k < idx.len()
                            &&& idx[k] == vertex_cell(w as int, px, pz, pc)
                            &&& is_terrain_vertex(
                                verts[k],
                                w as int,
                                d as int,
                                scale as int,
                                crate::grid::ints(heights@),
                                px,
                                pz,
                                pc,
                            )
                        },
                decreases w - x,
            {
                let mut z: usize = 0;
                while z + 1 < d
                    invariant
                        1 <= w <= 0x7fff_ffff,
                        1 <= d <= 0x7fff_ffff,
                        0 < scale <= MAX_SCALE,
                        heights.len() == w * d,
                        x + 1 < w,
                        z + 1 <= d,
                        verts.len() == 6 * (x * (d - 1) + z),
                        idx.len() == verts.len(),
                        forall|k: int| 0 <= k < idx.len() ==> #[trigger] idx[k] < heights.len(),
                        forall|px: int, pz: int, pc: int|
                            #![trigger vertex_index(d as int, px, pz, pc)]
                            0 <= pz && pz + 1 < d && 0 <= pc < 6 && (0 <= px < x || (px == x && pz
                                < z)) ==> {
                                let k = vertex_index(d as int, px, pz, pc);
                                &&& 0 <= k < idx.len()
                                &&& idx[k] == vertex_cell(w as int, px, pz, pc)
                                &&& is_terrain_vertex(
                                    verts[k],
                                    w as int,
                                    d as int,
                                    scale as int,
                                    crate::grid::ints(heights@),
                                    px,
                                    pz,
                                    pc,
                                )
                            },
                    decreases d - z,
                {
                    let mut c: u8 = 0;
                    while c < 6
                        invariant
                            1 <= w <= 0x7fff_ffff,
                            1 <= d <= 0x7fff_ffff,
                            0 < scale <= MAX_SCALE,
                            heights.len() == w * d,
                            x + 1 < w,
                            z + 1 < d,
                            c <= 6,
                            verts.len() == 6 * (x * (d - 1) + z) + c,
                            idx.len() == verts.len(),
                            forall|k: int| 0 <= k < idx.len() ==> #[trigger] idx[k] < heights.len(),
                            forall|px: int, pz: int, pc: int|
                                #![trigger vertex_index(d as int, px, pz, pc)]
                                0 <= pz && pz + 1 < d && 0 <= pc < 6 && (0 <= px < x || (px == x
                                    && pz < z) || (px == x && pz == z && pc < c)) ==> {
                                    let k = vertex_index(d as int, px, pz, pc);
                                    &&& 0 <= k < idx.len()
                                    &&& idx[k] == vertex_cell(w as int, px, pz, pc)
                                    &&& is_terrain_vertex(
                                        verts[k],
                                        w as int,
                                        d as int,
                                        scale as int,
                                        crate::grid::ints(heights@),
                                        px,
                                        pz,
                                        pc,
                                    )
                                },
                        decreases 6 - c,
                    {
                        let (v, cell) = terrain_corner(&heights, w, d, scale, x, z, c);
                        let ghost old_verts = verts@;
                        let ghost old_idx = idx@;
                        verts.push(v);
                        idx.push(cell);
                        proof {
                            assert forall|px: int, pz: int, pc: int|
                                #![trigger vertex_index(d as int, px, pz, pc)]
                                0 <= pz && pz + 1 < d && 0 <= pc < 6 && (0 <= px < x || (px == x
                                    && pz < z) || (px == x && pz == z && pc < c + 1)) implies {
                                let k = vertex_index(d as int, px, pz, pc);
                                &&& 0 <= k < idx.len()
                                &&& idx[k] == vertex_cell(w as int, px, pz, pc)
                                &&& is_terrain_vertex(
                                    verts[k],
                                    w as int,
                                    d as int,
                                    scale as int,
                                    crate::grid::ints(heights@),
                                    px,
                                    pz,
                                    pc,
                                )
                            } by {
                                let k = vertex_index(d as int, px, pz, pc);
                                if px == x && pz == z && pc == c {
                                    assert(k == old_verts.len());
                                } else {
                                    assert(0 <= k < old_idx.len());
                                    assert(verts[k] == old_verts[k]);
                                    assert(idx[k] == old_idx[k]);
                                }
                            }
                        }
                        c += 1;
                    }
                    z += 1;
                }
                proof {
                    assert(6 * (x * (d - 1) + z) == 6 * ((x + 1) * (d - 1))) by (nonlinear_arith)
                        requires
                            z == d - 1,
                    ;
                }
                x += 1;
            }
            proof {
                assert(x == w - 1);
            }
        }
        let mesh = Mesh::from_vertices(&verts, true);
        proof {
            let hs = crate::grid::ints(heights@);
            let cs = crate::grid::indices(idx@);
            assert forall|px: int, pz: int, pc: int|
                #![trigger vertex_index(d as int, px, pz, pc)]
                0 <= px && px + 1 < w && 0 <= pz && pz + 1 < d && 0 <= pc < 6 implies {
                let k = vertex_index(d as int, px, pz, pc);
                &&& 0 <= k < cs.len()
                &&& cs[k] == vertex_cell(w as int, px, pz, pc)
                &&& is_terrain_vertex(verts@[k], w as int, d as int, scale as int, hs, px, pz, pc)
            } by {
                let k = vertex_index(d as int, px, pz, pc);
                assert(0 <= k < idx.len());
            }
        }
        (mesh, (w, d), heights, idx)
    }

    /// The sky: a cube around the camera, seen from inside, with one layer
    /// of a texture array on each of its six faces. The vertices come back
    /// with the mesh, which does not retain them.
    pub fn for_cubemap() -> (r: (Mesh, Vec<Vertex>))
        ensures
            r.0.wf(),
            r.0.count_spec() == 36,
            r.0.mirror().is_none(),
            r.0.loaded().is_none(),
            r.1.len() == 36,
            forall|f: int, j: int|
                0 <= f < 6 && 0 <= j < 6 ==> is_sky_vertex(#[trigger] r.1[6 * f + j], f, j),
    {
        let mut vs: Vec<Vertex> = Vec::new();
        let mut f: usize = 0;
        while f < 6
            invariant
                f <= 6,
                vs.len() == 6 * f,
                forall|pf: int, pj: int|
                    0 <= pf < f && 0 <= pj < 6 ==> is_sky_vertex(#[trigger] vs[6 * pf + pj], pf, pj),
            decreases 6 - f,
        {
            let mut j: usize = 0;
            while j < 6
                invariant
                    f < 6,
                    j <= 6,
                    vs.len() == 6 * f + j,
                    forall|pf: int, pj: int|
                        0 <= pj < 6 && (0 <= pf < f || (pf == f && pj < j)) ==> is_sky_vertex(
                            #[trigger] vs[6 * pf + pj],
                            pf,
                            pj,
                        ),
                decreases 6 - j,
            {
                let v = sky_vertex(f, j);
                let ghost before = vs@;
                vs.push(v);
                proof {
                    assert forall|pf: int, pj: int|
                        0 <= pj < 6 && (0 <= pf < f || (pf == f && pj < j + 1)) implies is_sky_vertex(
                        #[trigger] vs[6 * pf + pj],
                        pf,
                        pj,
                    ) by {
                        if pf == f && pj == j {
                        } else {
                            assert(vs[6 * pf + pj] == before[6 * pf + pj]);
                        }
                    }
                }
                j += 1;
            }
            f += 1;
        }
        let mesh = Mesh::from_vertices(&vs, false);
        (mesh, vs)
    }

    /// The vertices the mesh was loaded with.
    pub fn orig_buffer(&self) -> (m: &Vec<Vertex>)
        requires
            self.loaded().is_some(),
        ensures
            Some(m@) == self.loaded(),
    {
        self.orig_buffer.as_ref().unwrap()
    }

    /// A mesh over the given vertices.
    pub fn from_vertices(vs: &Vec<Vertex>, retain: bool) -> (mesh: Mesh)
        ensures
            mesh.wf(),
            mesh.count_spec() == vs.len(),
            retain ==> mesh.mirror() == Some(vs@) && mesh.loaded() == Some(vs@),
            !retain ==> mesh.mirror().is_none() && mesh.loaded().is_none(),
    {
        if retain {
            Mesh {
                count: vs.len(),
                gpu_clone: Some(copy_vertices(vs)),
                orig_buffer: Some(copy_vertices(vs)),
            }
        } else {
            Mesh { count: vs.len(), gpu_clone: None, orig_buffer: None }
        }
    }

    /// Number of vertices in the GPU buffer.
    pub fn count(&self) -> (n: usize)
        ensures
            n == self.count_spec(),
    {
        self.count
    }

    /// `true` when the mesh keeps a mirror of the GPU buffer.
    pub fn is_retained(&self) -> (r: bool)
        ensures
            r == self.mirror().is_some(),
    {
        self.gpu_clone.is_some()
    }

    /// The mirror of the GPU buffer.
    pub fn gpu_clone(&self) -> (m: &Vec<Vertex>)
        requires
            self.mirror().is_some(),
        ensures
            Some(m@) == self.mirror(),
    {
        self.gpu_clone.as_ref().unwrap()
    }

    /// Brings the mirror up to `new_vertices` and says which parts of the
    /// GPU buffer have to be rewritten: the maximal runs of vertices that
    /// changed, as half-open index ranges in ascending order. Vertices past
    /// the end of `new_vertices` stay as they are.
    ///
    /// A mesh that does not know what it was loaded with is taken to have
    /// been loaded with nothing.
    pub fn update_mesh(&mut self, new_vertices: &Vec<Vertex>) -> (ranges: Vec<(usize, usize)>)
        requires
            old(self).wf(),
            old(self).mirror().is_some(),
            new_vertices.len() <= old(self).count_spec(),
        ensures
            final(self).wf(),
            final(self).count_spec() == old(self).count_spec(),
            final(self).mirror() == Some(
                new_vertices@ + old(self).mirror().unwrap().subrange(
                    new_vertices.len() as int,
                    old(self).count_spec() as int,
                ),
            ),
            final(self).loaded() == (match old(self).loaded() {
                Some(o) => Some(o),
                None => Some(Seq::empty()),
            }),
            is_dirty_runs(
                ranges@,
                old(self).mirror().unwrap(),
                new_vertices@,
                new_vertices.len() as int,
            ),
    {
        if self.orig_buffer.is_none() {
            self.orig_buffer = Some(Vec::new());
        }
        let mut gpu: Vec<Vertex> = self.gpu_clone.take().unwrap();
        let ghost before = gpu@;
        let n: usize = new_vertices.len();
        let mut ranges: Vec<(usize, usize)> = Vec::new();
        let mut i: usize = 0;
        while i < n
            invariant
                i <= n,
                n == new_vertices.len(),
                n <= before.len(),
                gpu@.len() == before.len(),
                forall|j: int| 0 <= j < i ==> #[trigger] gpu@[j] == new_vertices@[j],
                forall|j: int| i <= j < before.len() ==> #[trigger] gpu@[j] == before[j],
                is_dirty_runs(ranges@, before, new_vertices@, i as int),
                ranges.len() > 0 && ranges[ranges.len() - 1].1 == i && i < n ==> new_vertices@[i as int].same(
                    before[i as int],
                ),
            decreases n - i,
        {
            if !new_vertices[i].differs(&gpu[i]) {
                gpu.set(i, new_vertices[i]);
                proof {
                    assert forall|j: int| 0 <= j < i + 1 implies (covered(ranges@, j) <==> !(
                    #[trigger] new_vertices@[j]).same(before[j])) by {
                        if j == i {
                            if covered(ranges@, j) {
                                let r = choose|r: int|
                                    0 <= r < ranges@.len() && (#[trigger] ranges@[r]).0 <= j
                                        < ranges@[r].1;
                                assert(ranges@[r].1 <= i);
                            }
                        }
                    }
                }
                i += 1;
            } else {
                let start: usize = i;
                let ghost head = ranges@;
                while i < n && new_vertices[i].differs(&gpu[i])
                    invariant
                        start <= i <= n,
                        start < n,
                        n == new_vertices.len(),
                        n <= before.len(),
                        gpu@.len() == before.len(),
                        ranges@ == head,
                        !new_vertices@[start as int].same(before[start as int]),
                        forall|j: int| 0 <= j < i ==> #[trigger] gpu@[j] == new_vertices@[j],
                        forall|j: int| i <= j < before.len() ==> #[trigger] gpu@[j] == before[j],
                        forall|j: int|
                            start <= j < i ==> !(#[trigger] new_vertices@[j]).same(before[j]),
                    decreases n - i,
                {
                    gpu.set(i, new_vertices[i]);
                    i += 1;
                }
                ranges.push((start, i));
                proof {
                    let last = head.len() as int;
                    assert(ranges@[last] == (start, i));
                    assert forall|r: int| 0 <= r < ranges@.len() implies (#[trigger] ranges@[r]).0
                        < ranges@[r].1 && ranges@[r].1 <= i by {
                        if r < last {
                            assert(ranges@[r] == head[r]);
                        }
                    }
                    assert forall|r: int| 0 <= r && r + 1 < ranges@.len() implies (
                    #[trigger] ranges@[r]).1 < ranges@[r + 1].0 by {
                        assert(ranges@[r] == head[r]);
                        if r + 1 < last {
                            assert(ranges@[r + 1] == head[r + 1]);
                        } else {
                            assert(head[r].1 <= start);
                            if head[r].1 == start {
                                assert(head[head.len() - 1] == head[r]);
                            }
                        }
                    }
                    assert forall|j: int| 0 <= j < i implies (covered(ranges@, j) <==> !(
                    #[trigger] new_vertices@[j]).same(before[j])) by {
                        if j < start {
                            if covered(head, j) {
                                let r = choose|r: int|
                                    0 <= r < head.len() && (#[trigger] head[r]).0 <= j < head[r].1;
                                assert(ranges@[r] == head[r]);
                            }
                            if covered(ranges@, j) {
                                let r = choose|r: int|
                                    0 <= r < ranges@.len() && (#[trigger] ranges@[r]).0 <= j
                                        < ranges@[r].1;
                                assert(r < last);
                                assert(ranges@[r] == head[r]);
                            }
                        } else {
                            assert(ranges@[last].0 <= j < ranges@[last].1);
                        }
                    }
                }
            }
        }
        proof {
            assert(gpu@ =~= new_vertices@ + before.subrange(n as int, before.len() as int));
        }
        self.gpu_clone = Some(gpu);
        ranges
    }
}

/// A copy of a list of vertices.
fn copy_vertices(vs: &Vec<Vertex>) -> (copy: Vec<Vertex>)
    ensures
        copy@ == vs@,
{
    let mut copy: Vec<Vertex> = Vec::new();
    let mut i: usize = 0;
    while i < vs.len()
        invariant
            i <= vs.len(),
            copy@ == vs@.subrange(0, i as int),
        decreases vs.len() - i,
    {
        copy.push(vs[i]);
        proof {
            assert(copy@ =~= vs@.subrange(0, i + 1));
        }
        i += 1;
    }
    proof {
        assert(vs@.subrange(0, vs.len() as int) =~= vs@);
    }
    copy
}

} // verus!
