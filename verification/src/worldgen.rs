//! Levels built of tiles.
//!
//! A level is described in text. First come the kinds of tile, each with
//! the character that stands for it on the map:
//!
//! ```text
//! # a comment
//! block ch=. height=0
//! block ch=/ shape=l height=0 heightb=2.5
//! tiles
//! ../.
//! ....
//! ```
//!
//! After the line `tiles`, every line is a row of the map. A tile is ten
//! units wide and deep. Its top is flat or slopes between two heights;
//! below its top it is a solid block down to the ground.
use vstd::prelude::*;
use crate::fixed::ONE;
use crate::math::Pnt2;
use crate::math::Pnt3;
use crate::math::Vec3;
use crate::text::chars_of;
use crate::text::fields;
use crate::text::lemma_until_is_prefix;
use crate::text::parse_fixed;
use crate::text::parse_fixed_spec;
use crate::text::same_chars;
use crate::text::split_fields;
use crate::text::split_words;
use crate::text::take_until;
use crate::text::until;
use crate::text::views;
use crate::text::words;

verus! {

/// One whole unit the other way.
pub const MINUS_ONE: i64 = -1_000_000;

/// Width and depth of a tile (10).
pub const TILE_SIZE: i64 = 10_000_000;

/// The top of a tile: flat at one height, or sloping from a low edge or
/// corner to a high one. The first height is that of the low side.
#[derive(Clone, Copy, Debug, PartialEq, Eq, Structural)]
pub enum Shape {
    Flat(i64),
    /// Rises along x.
    Left(i64, i64),
    /// Falls along x.
    Right(i64, i64),
    /// Rises along z.
    Up(i64, i64),
    /// Falls along z.
    Down(i64, i64),
    /// Level but for the far corner, which is raised.
    LeftUp(i64, i64),
}

/// A tile.
#[derive(Clone, Copy, Debug, PartialEq, Eq, Structural)]
pub struct Tile {
    pub shape: Shape,
}

/// Why a level could not be read.
#[derive(Clone, Copy, Debug, PartialEq, Eq, Structural)]
pub struct LevelError {
    /// The line that is at fault, counting from zero.
    pub line: usize,
}

/// The height of the top of a tile at one of its corners: corner 0 is the
/// near one, 1 lies along z from it, 2 along x, and 3 across.
pub open spec fn corner_height(shape: Shape, corner: int) -> i64 {
    match shape {
        Shape::Flat(h) => h,
        Shape::Left(d, u) => if corner < 2 {
            d
        } else {
            u
        },
        Shape::Right(d, u) => if corner < 2 {
            u
        } else {
            d
        },
        Shape::Up(d, u) => if corner % 2 == 0 {
            d
        } else {
            u
        },
        Shape::Down(d, u) => if corner % 2 == 0 {
            u
        } else {
            d
        },
        Shape::LeftUp(d, u) => if corner == 3 {
            u
        } else {
            d
        },
    }
}

/// The corner that the `j`-th vertex of the top face stands on. The face is
/// two triangles, through the corners 0, 1, 3 and 3, 2, 0.
#[verifier::allow_in_spec]
pub fn top_corner(j: usize) -> (c: usize)
    returns
        (if j == 1 {
            1usize
        } else if j == 2 || j == 3 {
            3usize
        } else if j == 4 {
            2usize
        } else {
            0usize
        }),
{
    if j == 1 {
        1
    } else if j == 2 || j == 3 {
        3
    } else if j == 4 {
        2
    } else {
        0
    }
}

/// Whether the `j`-th vertex of a side face stands on the first of the two
/// corners of its side. A side is two triangles: from the top of the first
/// corner down to the ground, along it to the second corner, and from
/// there up and back.
#[verifier::allow_in_spec]
pub fn side_at_first(j: usize) -> (r: bool)
    returns
        (j == 0 || j == 1 || j == 5),
{
    j == 0 || j == 1 || j == 5
}

/// Whether the `j`-th vertex of a side face is at the top of the tile, not
/// on the ground.
#[verifier::allow_in_spec]
pub fn side_at_top(j: usize) -> (r: bool)
    returns
        (j == 0 || j == 4 || j == 5),
{
    j == 0 || j == 4 || j == 5
}

/// The two corners of a side: of side 1, which faces down x, of side 2,
/// which faces up x, of side 3, which faces down z, and of side 4, which
/// faces up z.
#[verifier::allow_in_spec]
pub fn side_corners(side: usize) -> (r: (usize, usize))
    returns
        (if side == 1 {
            (1usize, 0usize)
        } else if side == 2 {
            (3usize, 2usize)
        } else if side == 3 {
            (2usize, 0usize)
        } else {
            (3usize, 1usize)
        }),
{
    if side == 1 {
        (1, 0)
    } else if side == 2 {
        (3, 2)
    } else if side == 3 {
        (2, 0)
    } else {
        (3, 1)
    }
}

/// The normal of a face: of face 0, the top, and of the four sides.
#[verifier::allow_in_spec]
pub fn face_normal(face: usize) -> (n: Vec3)
    returns
        (if face == 0 {
            Vec3 { x: 0, y: 1_000_000, z: 0 }
        } else if face == 1 {
            Vec3 { x: MINUS_ONE, y: 0, z: 0 }
        } else if face == 2 {
            Vec3 { x: 1_000_000, y: 0, z: 0 }
        } else if face == 3 {
            Vec3 { x: 0, y: 0, z: MINUS_ONE }
        } else {
            Vec3 { x: 0, y: 0, z: 1_000_000 }
        }),
{
    if face == 0 {
        Vec3 { x: 0, y: 1_000_000, z: 0 }
    } else if face == 1 {
        Vec3 { x: MINUS_ONE, y: 0, z: 0 }
    } else if face == 2 {
        Vec3 { x: 1_000_000, y: 0, z: 0 }
    } else if face == 3 {
        Vec3 { x: 0, y: 0, z: MINUS_ONE }
    } else {
        Vec3 { x: 0, y: 0, z: 1_000_000 }
    }
}

/// The corner that the `k`-th of the thirty vertices of a tile stands on.
pub open spec fn vertex_corner(k: int) -> int {
    let face = (k / 6) as usize;
    let j = (k % 6) as usize;
    if face == 0 {
        top_corner(j) as int
    } else if side_at_first(j) {
        side_corners(face).0 as int
    } else {
        side_corners(face).1 as int
    }
}

/// Whether the `k`-th vertex of a tile is at the top of the tile.
pub open spec fn vertex_at_top(k: int) -> bool {
    k / 6 == 0 || side_at_top((k % 6) as usize)
}

/// Where the `k`-th vertex of the tile at `(x, y)` of the map stands.
pub open spec fn vertex_position(tile: Tile, x: int, y: int, k: int) -> Pnt3 {
    let c = vertex_corner(k);
    Pnt3 {
        x: (x * TILE_SIZE + (c / 2) * TILE_SIZE) as i64,
        y: if vertex_at_top(k) {
            corner_height(tile.shape, c)
        } else {
            0
        },
        z: (y * TILE_SIZE + (c % 2) * TILE_SIZE) as i64,
    }
}

/// The texture coordinate of the `k`-th vertex of a tile. The top shows
/// the left half of the texture; the sides show the right half, upright.
pub open spec fn vertex_texcoord(k: int) -> Pnt2 {
    let face = (k / 6) as usize;
    let j = (k % 6) as usize;
    let c = vertex_corner(k);
    if face == 0 {
        Pnt2 { x: ((c / 2) * 500_000) as i64, y: ((c % 2) * 1_000_000) as i64 }
    } else {
        Pnt2 {
            x: if side_at_first(j) == (face == 1 || face == 4) {
                1_000_000
            } else {
                500_000
            },
            y: if side_at_top(j) {
                1_000_000
            } else {
                0
            },
        }
    }
}

/// A level: a map of tiles, row by row.
#[derive(Debug)]
pub struct Worldgen {
    dims: (u32, u32),
    tiles: Vec<Tile>,
}

impl Worldgen {
    /// Width and depth of the map, in tiles.
    pub closed spec fn dims_spec(&self) -> (u32, u32) {
        self.dims
    }

    /// The tiles, row by row.
    pub closed spec fn tiles_spec(&self) -> Seq<Tile> {
        self.tiles@
    }

    /// There is a tile for every place of the map.
    pub open spec fn wf(&self) -> bool {
        self.tiles_spec().len() == self.dims_spec().0 * self.dims_spec().1
    }

    /// A level of flat tiles at height zero.
    pub fn new(dims: (u32, u32)) -> (w: Worldgen)
        requires
            dims.0 * dims.1 <= usize::MAX,
        ensures
            w.wf(),
            w.dims_spec() == dims,
            forall|i: int|
                0 <= i < w.tiles_spec().len() ==> #[trigger] w.tiles_spec()[i] == (Tile {
                    shape: Shape::Flat(0),
                }),
    {
        assert(dims.0 * dims.1 <= 0xffff_ffff * 0xffff_ffff) by (nonlinear_arith)
            requires
                0 <= dims.0 <= 0xffff_ffff,
                0 <= dims.1 <= 0xffff_ffff,
        ;
        let n: usize = ((dims.0 as u64) * (dims.1 as u64)) as usize;
        let mut tiles: Vec<Tile> = Vec::new();
        let mut i: usize = 0;
        while i < n
            invariant
                i <= n,
                tiles.len() == i,
                forall|j: int| 0 <= j < i ==> #[trigger] tiles[j] == (Tile { shape: Shape::Flat(0) }),
            decreases n - i,
        {
            tiles.push(Tile { shape: Shape::Flat(0) });
            i += 1;
        }
        Worldgen { dims, tiles }
    }

    /// Width and depth of the map, in tiles.
    pub fn dims(&self) -> (d: (u32, u32))
        ensures
            d == self.dims_spec(),
    {
        self.dims
    }

    /// The tiles, row by row.
    pub fn tiles(&self) -> (t: &Vec<Tile>)
        ensures
            t@ == self.tiles_spec(),
    {
        &self.tiles
    }
}

/// The height of the top of a tile at one of its corners.
fn height_at_corner(shape: Shape, corner: usize) -> (h: i64)
    ensures
        h == corner_height(shape, corner as int),
{
    match shape {
        Shape::Flat(h) => h,
        Shape::Left(d, u) => if corner < 2 {
            d
        } else {
            u
        },
        Shape::Right(d, u) => if corner < 2 {
            u
        } else {
            d
        },
        Shape::Up(d, u) => if corner % 2 == 0 {
            d
        } else {
            u
        },
        Shape::Down(d, u) => if corner % 2 == 0 {
            u
        } else {
            d
        },
        Shape::LeftUp(d, u) => if corner == 3 {
            u
        } else {
            d
        },
    }
}

/// The vertices of a level, for drawing: where they stand, their normals
/// and their texture coordinates. Every tile is a block of five faces, its
/// top and its four sides, of two triangles each; the tiles come column by
/// column.
pub fn generate_3d_vertices(world: &Worldgen) -> (r: (Vec<Pnt3>, Vec<Vec3>, Vec<Pnt2>))
    requires
        world.wf(),
    ensures
        r.0.len() == 30 * world.tiles_spec().len(),
        r.1.len() == r.0.len(),
        r.2.len() == r.0.len(),
        forall|x: int, y: int, k: int|
            #![trigger vertex_index(world.dims_spec().1 as int, x, y, k)]
            0 <= x < world.dims_spec().0 && 0 <= y < world.dims_spec().1 && 0 <= k < 30 ==> {
                let at = vertex_index(world.dims_spec().1 as int, x, y, k);
                let tile = world.tiles_spec()[y * world.dims_spec().0 + x];
                &&& 0 <= at < r.0.len()
                &&& r.0[at] == vertex_position(tile, x, y, k)
                &&& r.1[at] == face_normal((k / 6) as usize)
                &&& r.2[at] == vertex_texcoord(k)
            },
{
    let w: usize = world.dims.0 as usize;
    let d: usize = world.dims.1 as usize;
    let mut pos: Vec<Pnt3> = Vec::new();
    let mut nor: Vec<Vec3> = Vec::new();
    let mut tex: Vec<Pnt2> = Vec::new();
    let mut x: usize = 0;
    while x < w
        invariant
            world.wf(),
            w == world.dims.0,
            d == world.dims.1,
            x <= w,
            pos.len() == 30 * (x * d),
            nor.len() == pos.len(),
            tex.len() == pos.len(),
            forall|px: int, py: int, k: int|
                #![trigger vertex_index(d as int, px, py, k)]
                0 <= px < x && 0 <= py < d && 0 <= k < 30 ==> {
                    let at = vertex_index(d as int, px, py, k);
                    let tile = world.tiles@[py * w + px];
                    &&& 0 <= at < pos.len()
                    &&& pos[at] == vertex_position(tile, px, py, k)
                    &&& nor[at] == face_normal((k / 6) as usize)
                    &&& tex[at] == vertex_texcoord(k)
                },
        decreases w - x,
    {
        let mut y: usize = 0;
        while y < d
            invariant
                world.wf(),
                w == world.dims.0,
                d == world.dims.1,
                x < w,
                y <= d,
                pos.len() == 30 * (x * d + y),
                nor.len() == pos.len(),
                tex.len() == pos.len(),
                forall|px: int, py: int, k: int|
                    #![trigger vertex_index(d as int, px, py, k)]
                    0 <= py < d && 0 <= k < 30 && (0 <= px < x || (px == x && py < y)) ==> {
                        let at = vertex_index(d as int, px, py, k);
                        let tile = world.tiles@[py * w + px];
                        &&& 0 <= at < pos.len()
                        &&& pos[at] == vertex_position(tile, px, py, k)
                        &&& nor[at] == face_normal((k / 6) as usize)
                        &&& tex[at] == vertex_texcoord(k)
                    },
            decreases d - y,
        {
            proof {
                crate::grid::lemma_cell_index(w as int, d as int, x as int, y as int);
                assert(0 <= y * w <= 0xffff_ffff * 0xffff_ffff) by (nonlinear_arith)
                    requires
                        0 <= y <= 0xffff_ffff,
                        0 <= w <= 0xffff_ffff,
                ;
                assert(world.tiles@.len() == w * d);
            }
            let n: usize = world.tiles.len();
            let tile: Tile = world.tiles[y * w + x];
            let mut k: usize = 0;
            while k < 30
                invariant
                    world.wf(),
                    w == world.dims.0,
                    d == world.dims.1,
                    x < w,
                    y < d,
                    k <= 30,
                    tile == world.tiles@[y * w + x],
                    pos.len() == 30 * (x * d + y) + k,
                    nor.len() == pos.len(),
                    tex.len() == pos.len(),
                    forall|px: int, py: int, pk: int|
                        #![trigger vertex_index(d as int, px, py, pk)]
                        0 <= py < d && 0 <= pk < 30 && (0 <= px < x || (px == x && py < y) || (px
                            == x && py == y && pk < k)) ==> {
                            let at = vertex_index(d as int, px, py, pk);
                            let tile = world.tiles@[py * w + px];
                            &&& 0 <= at < pos.len()
                            &&& pos[at] == vertex_position(tile, px, py, pk)
                            &&& nor[at] == face_normal((pk / 6) as usize)
                            &&& tex[at] == vertex_texcoord(pk)
                        },
                decreases 30 - k,
            {
                let face: usize = k / 6;
                let j: usize = k % 6;
                let c: usize = if face == 0 {
                    top_corner(j)
                } else if side_at_first(j) {
                    side_corners(face).0
                } else {
                    side_corners(face).1
                };
                let top: bool = face == 0 || side_at_top(j);
                let p = Pnt3 {
                    x: (x as i64) * TILE_SIZE + ((c / 2) as i64) * TILE_SIZE,
                    y: if top {
                        height_at_corner(tile.shape, c)
                    } else {
                        0
                    },
                    z: (y as i64) * TILE_SIZE + ((c % 2) as i64) * TILE_SIZE,
                };
                let t = if face == 0 {
                    Pnt2 { x: ((c / 2) as i64) * 500_000, y: ((c % 2) as i64) * ONE }
                } else {
                    Pnt2 {
                        x: if side_at_first(j) == (face == 1 || face == 4) {
                            ONE
                        } else {
                            500_000
                        },
                        y: if side_at_top(j) {
                            ONE
                        } else {
                            0
                        },
                    }
                };
                let ghost old_pos = pos@;
                let ghost old_nor = nor@;
                let ghost old_tex = tex@;
                pos.push(p);
                nor.push(face_normal(face));
                tex.push(t);
                proof {
                    assert forall|px: int, py: int, pk: int|
                        #![trigger vertex_index(d as int, px, py, pk)]
                        0 <= py < d && 0 <= pk < 30 && (0 <= px < x || (px == x && py < y) || (px
                            == x && py == y && pk < k + 1)) implies {
                        let at = vertex_index(d as int, px, py, pk);
                        let tile = world.tiles@[py * w + px];
                        &&& 0 <= at < pos.len()
                        &&& pos[at] == vertex_position(tile, px, py, pk)
                        &&& nor[at] == face_normal((pk / 6) as usize)
                        &&& tex[at] == vertex_texcoord(pk)
                    } by {
                        let at = vertex_index(d as int, px, py, pk);
                        if px == x && py == y && pk == k {
                            assert(at == old_pos.len());
                        } else {
                            assert(0 <= at < old_pos.len());
                            assert(pos[at] == old_pos[at]);
                            assert(nor[at] == old_nor[at]);
                            assert(tex[at] == old_tex[at]);
                        }
                    }
                }
                k += 1;
            }
            y += 1;
        }
        proof {
            assert(30 * (x * d + y) == 30 * ((x + 1) * d)) by (nonlinear_arith)
                requires
                    y == d,
            ;
        }
        x += 1;
    }
    proof {
        assert(w * d == world.tiles@.len());
        assert(30 * (x * d) == 30 * (w * d));
    }
    (pos, nor, tex)
}

/// Where the `k`-th vertex of the tile at `(x, y)` stands in the list of
/// vertices of a level `depth` tiles deep.
pub open spec fn vertex_index(depth: int, x: int, y: int, k: int) -> int {
    30 * (x * depth + y) + k
}


/// The value that a run of `key=value` words gives to `key`: that of the
/// last word with this key.
pub open spec fn arg(args: Seq<Seq<char>>, key: Seq<char>) -> Option<Seq<char>>
    decreases args.len(),
{
    if args.len() == 0 {
        None
    } else if until(args.last(), '=') == key {
        Some(args.last().subrange(key.len() as int + 1, args.last().len() as int))
    } else {
        arg(args.drop_last(), key)
    }
}

/// Every word has an equals sign.
pub open spec fn all_assign(args: Seq<Seq<char>>) -> bool {
    forall|i: int| 0 <= i < args.len() ==> until(#[trigger] args[i], '=').len() < args[i].len()
}

/// The number that `key` is set to, if it is set to one.
pub open spec fn number_arg(args: Seq<Seq<char>>, key: Seq<char>) -> Option<i64> {
    match arg(args, key) {
        Some(v) => parse_fixed_spec(v),
        None => None,
    }
}

/// The tile that the words behind `block` describe, if they describe one:
/// its shape is `flat` unless `shape` says `l`, `r`, `u`, `d` or `lu`;
/// `height` gives its height, and for a slope `heightb` that of its high
/// side.
pub open spec fn tile_of(args: Seq<Seq<char>>) -> Option<Tile> {
    let kind = match arg(args, "shape"@) {
        Some(k) => k,
        None => "flat"@,
    };
    let low = number_arg(args, "height"@);
    let high = number_arg(args, "heightb"@);
    if low.is_none() {
        None
    } else if kind == "flat"@ {
        Some(Tile { shape: Shape::Flat(low.unwrap()) })
    } else if high.is_none() {
        None
    } else if kind == "l"@ {
        Some(Tile { shape: Shape::Left(low.unwrap(), high.unwrap()) })
    } else if kind == "r"@ {
        Some(Tile { shape: Shape::Right(low.unwrap(), high.unwrap()) })
    } else if kind == "u"@ {
        Some(Tile { shape: Shape::Up(low.unwrap(), high.unwrap()) })
    } else if kind == "d"@ {
        Some(Tile { shape: Shape::Down(low.unwrap(), high.unwrap()) })
    } else if kind == "lu"@ {
        Some(Tile { shape: Shape::LeftUp(low.unwrap(), high.unwrap()) })
    } else {
        None
    }
}

/// The tile that a character stands for among the blocks declared so far:
/// that of the last block with this character.
pub open spec fn block_for(blocks: Seq<(char, Tile)>, ch: char) -> Option<Tile>
    decreases blocks.len(),
{
    if blocks.len() == 0 {
        None
    } else if blocks.last().0 == ch {
        Some(blocks.last().1)
    } else {
        block_for(blocks.drop_last(), ch)
    }
}

/// The tiles that a row of the map stands for, if every character of the
/// row stands for one.
pub open spec fn row_tiles(blocks: Seq<(char, Tile)>, row: Seq<char>) -> Option<Seq<Tile>>
    decreases row.len(),
{
    if row.len() == 0 {
        Some(Seq::empty())
    } else {
        match (row_tiles(blocks, row.drop_last()), block_for(blocks, row.last())) {
            (Some(tiles), Some(tile)) => Some(tiles.push(tile)),
            _ => None,
        }
    }
}

/// What has been read of a level.
pub struct LevelModel {
    /// The line `tiles` has been read: what follows is the map.
    pub mapping: bool,
    /// The blocks declared, in the order of the file.
    pub blocks: Seq<(char, Tile)>,
    /// Width of the map, once its first row has been read.
    pub width: nat,
    /// Rows of the map read so far.
    pub rows: nat,
    pub tiles: Seq<Tile>,
}

impl LevelModel {
    /// Nothing read yet.
    pub open spec fn empty() -> LevelModel {
        LevelModel { mapping: false, blocks: Seq::empty(), width: 0, rows: 0, tiles: Seq::empty() }
    }

    /// The level after a row of the map, if the row is as wide as the map
    /// and every character of it stands for a block.
    pub open spec fn with_row(self, row: Seq<char>) -> Option<LevelModel> {
        if self.rows > 0 && row.len() != self.width {
            None
        } else {
            match row_tiles(self.blocks, row) {
                Some(tiles) => Some(
                    LevelModel {
                        width: row.len(),
                        rows: self.rows + 1,
                        tiles: self.tiles + tiles,
                        ..self
                    },
                ),
                None => None,
            }
        }
    }

    /// The level after a line with the given words, if the line can be
    /// read. Lines without words are passed over; so are, before the map,
    /// lines that begin with `#`. A row of the map is one word.
    pub open spec fn with_words(self, toks: Seq<Seq<char>>) -> Option<LevelModel> {
        if toks.len() == 0 {
            Some(self)
        } else if self.mapping {
            if toks.len() == 1 {
                self.with_row(toks[0])
            } else {
                None
            }
        } else if toks[0][0] == '#' {
            Some(self)
        } else {
            let args = toks.subrange(1, toks.len() as int);
            if !all_assign(args) {
                None
            } else if toks[0] == "tiles"@ {
                Some(LevelModel { mapping: true, ..self })
            } else if toks[0] == "block"@ {
                match (arg(args, "ch"@), tile_of(args)) {
                    (Some(ch), Some(tile)) => if ch.len() > 0 {
                        Some(LevelModel { blocks: self.blocks.push((ch[0], tile)), ..self })
                    } else {
                        None
                    },
                    _ => None,
                }
            } else {
                None
            }
        }
    }

    /// The level after the lines from `from` on were read, or the first
    /// line among them that cannot be read.
    pub open spec fn with_lines(self, lines: Seq<Seq<char>>, from: int) -> Result<
        LevelModel,
        LevelError,
    >
        decreases lines.len() - from,
    {
        if from >= lines.len() {
            Ok(self)
        } else {
            match self.with_words(words(lines[from])) {
                Some(next) => next.with_lines(lines, from + 1),
                None => Err(LevelError { line: from as usize }),
            }
        }
    }
}

/// The level that a description stands for: what reading its lines gives,
/// if every line can be read and the map is not too large.
pub open spec fn level_of(desc: Seq<char>) -> Result<LevelModel, LevelError> {
    let lines = fields(desc, '\n');
    match LevelModel::empty().with_lines(lines, 0) {
        Ok(m) => if m.width <= u32::MAX && m.rows <= u32::MAX {
            Ok(m)
        } else {
            Err(LevelError { line: lines.len() as usize })
        },
        Err(e) => Err(e),
    }
}

/// Whether `w` is the word `lit`.
fn is_word(w: &Vec<char>, lit: &str) -> (r: bool)
    ensures
        r == (w@ == lit@),
{
    let l: Vec<char> = chars_of(lit);
    same_chars(w, &l)
}

/// The value that the words give to `key`.
fn find_arg(args: &Vec<Vec<char>>, from: usize, key: &str) -> (r: Option<Vec<char>>)
    requires
        from <= args.len(),
        all_assign(views(args@).subrange(from as int, args.len() as int)),
    ensures
        match (r, arg(views(args@).subrange(from as int, args.len() as int), key@)) {
            (Some(v), Some(w)) => v@ == w,
            (None, None) => true,
            _ => false,
        },
{
    let ghost all = views(args@).subrange(from as int, args.len() as int);
    let k: Vec<char> = chars_of(key);
    let mut i: usize = args.len();
    proof {
        assert(all.subrange(0, all.len() as int) =~= all);
    }
    while i > from
        invariant
            from <= i <= args.len(),
            k@ == key@,
            all == views(args@).subrange(from as int, args.len() as int),
            all_assign(all),
            arg(all.subrange(0, i - from), key@) == arg(all, key@),
        decreases i,
    {
        i -= 1;
        let word: &Vec<char> = &args[i];
        let head: Vec<char> = take_until(word, '=');
        proof {
            let prefix = all.subrange(0, i - from + 1);
            assert(prefix.last() == word@) by {
                assert(views(args@)[i as int] == args@[i as int]@);
            }
            assert(prefix.drop_last() =~= all.subrange(0, i - from));
            lemma_until_is_prefix(word@, '=');
            assert(until(all[i - from], '=').len() < all[i - from].len());
            assert(all[i - from] == word@);
            assert(head@.len() < word@.len());
        }
        if same_chars(&head, &k) {
            let mut value: Vec<char> = Vec::new();
            let end: usize = word.len();
            let mut j: usize = head.len() + 1;
            let start: usize = j;
            while j < end
                invariant
                    start <= j <= end,
                    end == word.len(),
                    value@ == word@.subrange(start as int, j as int),
                decreases end - j,
            {
                value.push(word[j]);
                proof {
                    assert(value@ =~= word@.subrange(start as int, j + 1));
                }
                j += 1;
            }
            proof {
                assert(word@.subrange(k@.len() as int + 1, word@.len() as int) =~= value@);
            }
            return Some(value);
        }
    }
    proof {
        assert(all.subrange(0, 0) =~= Seq::empty());
    }
    None
}

/// Whether every word from `from` on has an equals sign.
fn check_assign(args: &Vec<Vec<char>>, from: usize) -> (r: bool)
    requires
        from <= args.len(),
    ensures
        r == all_assign(views(args@).subrange(from as int, args.len() as int)),
{
    let ghost all = views(args@).subrange(from as int, args.len() as int);
    let mut i: usize = from;
    while i < args.len()
        invariant
            from <= i <= args.len(),
            all == views(args@).subrange(from as int, args.len() as int),
            forall|j: int| 0 <= j < i - from ==> until(#[trigger] all[j], '=').len() < all[j].len(),
        decreases args.len() - i,
    {
        let head: Vec<char> = take_until(&args[i], '=');
        proof {
            assert(all[i - from] == args@[i as int]@) by {
                assert(views(args@)[i as int] == args@[i as int]@);
            }
        }
        if head.len() >= args[i].len() {
            return false;
        }
        i += 1;
    }
    true
}

/// The number that `key` is set to.
fn find_number(args: &Vec<Vec<char>>, from: usize, key: &str) -> (r: Option<i64>)
    requires
        from <= args.len(),
        all_assign(views(args@).subrange(from as int, args.len() as int)),
    ensures
        r == number_arg(views(args@).subrange(from as int, args.len() as int), key@),
{
    match find_arg(args, from, key) {
        Some(v) => parse_fixed(&v),
        None => None,
    }
}

/// The tile that the words behind `block` describe.
fn read_tile(args: &Vec<Vec<char>>, from: usize) -> (r: Option<Tile>)
    requires
        from <= args.len(),
        all_assign(views(args@).subrange(from as int, args.len() as int)),
    ensures
        r == tile_of(views(args@).subrange(from as int, args.len() as int)),
{
    let kind: Vec<char> = match find_arg(args, from, "shape") {
        Some(k) => k,
        None => chars_of("flat"),
    };
    let low = match find_number(args, from, "height") {
        Some(v) => v,
        None => {
            return None;
        },
    };
    if is_word(&kind, "flat") {
        return Some(Tile { shape: Shape::Flat(low) });
    }
    let high = match find_number(args, from, "heightb") {
        Some(v) => v,
        None => {
            return None;
        },
    };
    if is_word(&kind, "l") {
        Some(Tile { shape: Shape::Left(low, high) })
    } else if is_word(&kind, "r") {
        Some(Tile { shape: Shape::Right(low, high) })
    } else if is_word(&kind, "u") {
        Some(Tile { shape: Shape::Up(low, high) })
    } else if is_word(&kind, "d") {
        Some(Tile { shape: Shape::Down(low, high) })
    } else if is_word(&kind, "lu") {
        Some(Tile { shape: Shape::LeftUp(low, high) })
    } else {
        None
    }
}

/// A level as it is read.
pub struct LevelReader {
    mapping: bool,
    blocks: Vec<(char, Tile)>,
    width: usize,
    rows: usize,
    tiles: Vec<Tile>,
}

impl View for LevelReader {
    type V = LevelModel;

    closed spec fn view(&self) -> LevelModel {
        LevelModel {
            mapping: self.mapping,
            blocks: self.blocks@,
            width: self.width as nat,
            rows: self.rows as nat,
            tiles: self.tiles@,
        }
    }
}

impl LevelReader {
    /// There is a tile for every place of the rows read, and no row is
    /// empty.
    pub open spec fn wf(&self) -> bool {
        &&& self@.tiles.len() == self@.width * self@.rows
        &&& self@.rows <= self@.tiles.len()
    }

    /// A reader that has read nothing.
    pub fn new() -> (r: LevelReader)
        ensures
            r.wf(),
            r@ == LevelModel::empty(),
    {
        LevelReader { mapping: false, blocks: Vec::new(), width: 0, rows: 0, tiles: Vec::new() }
    }

    fn find_block(&self, ch: char) -> (r: Option<Tile>)
        ensures
            r == block_for(self@.blocks, ch),
    {
        let mut i: usize = self.blocks.len();
        proof {
            assert(self.blocks@.subrange(0, i as int) =~= self.blocks@);
        }
        while i > 0
            invariant
                i <= self.blocks.len(),
                block_for(self.blocks@.subrange(0, i as int), ch) == block_for(self.blocks@, ch),
            decreases i,
        {
            i -= 1;
            proof {
                assert(self.blocks@.subrange(0, i + 1).drop_last() =~= self.blocks@.subrange(
                    0,
                    i as int,
                ));
            }
            if self.blocks[i].0 == ch {
                return Some(self.blocks[i].1);
            }
        }
        None
    }

    /// Reads a row of the map. Says whether the row could be read; if it
    /// could not, nothing is read.
    fn read_row(&mut self, row: &Vec<char>) -> (ok: bool)
        requires
            old(self).wf(),
            row.len() > 0,
        ensures
            final(self).wf(),
            ok == old(self)@.with_row(row@).is_some(),
            ok ==> Some(final(self)@) == old(self)@.with_row(row@),
            !ok ==> final(self)@ == old(self)@,
    {
        if self.rows > 0 && row.len() != self.width {
            return false;
        }
        let mut fresh: Vec<Tile> = Vec::new();
        let mut i: usize = 0;
        while i < row.len()
            invariant
                i <= row.len(),
                fresh.len() == i,
                *self == *old(self),
                self.wf(),
                row_tiles(self.blocks@, row@.subrange(0, i as int)) == Some(fresh@),
            decreases row.len() - i,
        {
            proof {
                assert(row@.subrange(0, i + 1).drop_last() =~= row@.subrange(0, i as int));
            }
            match self.find_block(row[i]) {
                Some(tile) => {
                    fresh.push(tile);
                },
                None => {
                    proof {
                        lemma_row_stays_bad(self.blocks@, row@, i + 1);
                    }
                    return false;
                },
            }
            i += 1;
        }
        proof {
            assert(row@.subrange(0, row.len() as int) =~= row@);
        }
        let ghost before = self.tiles@;
        let ghost rows = self.rows as int;
        let ghost width = row.len() as int;
        let ghost old_width = self.width as int;
        proof {
            assert(before.len() == old_width * rows);
            assert(old_width * 0 == 0) by (nonlinear_arith);
            assert(width * 0 == 0) by (nonlinear_arith);
            assert(width * (rows + 1) == width * rows + width) by (nonlinear_arith);
        }
        self.tiles.append(&mut fresh);
        let total: usize = self.tiles.len();
        proof {
            assert(self.tiles@ =~= before + row_tiles(self.blocks@, row@).unwrap());
            assert(total == before.len() + width);
        }
        self.width = row.len();
        self.rows = self.rows + 1;
        true
    }

    /// Reads one line. Says whether the line could be read; if it could
    /// not, nothing is read.
    pub fn read_line(&mut self, line: &Vec<char>) -> (ok: bool)
        requires
            old(self).wf(),
        ensures
            final(self).wf(),
            ok == old(self)@.with_words(words(line@)).is_some(),
            ok ==> Some(final(self)@) == old(self)@.with_words(words(line@)),
            !ok ==> final(self)@ == old(self)@,
    {
        let toks: Vec<Vec<char>> = split_words(line);
        proof {
            assert(views(toks@).len() == toks@.len());
            crate::text::lemma_words_have_letters(line@);
            if toks.len() > 0 {
                assert(views(toks@)[0] == toks@[0]@);
            }
        }
        if toks.len() == 0 {
            return true;
        }
        if self.mapping {
            if toks.len() == 1 {
                return self.read_row(&toks[0]);
            } else {
                return false;
            }
        }
        if toks[0][0] == '#' {
            return true;
        }
        if !check_assign(&toks, 1) {
            return false;
        }
        if is_word(&toks[0], "tiles") {
            self.mapping = true;
            true
        } else if is_word(&toks[0], "block") {
            match (find_arg(&toks, 1, "ch"), read_tile(&toks, 1)) {
                (Some(ch), Some(tile)) => {
                    if ch.len() > 0 {
                        self.blocks.push((ch[0], tile));
                        true
                    } else {
                        false
                    }
                },
                _ => false,
            }
        } else {
            false
        }
    }
}

/// Reads a level from its description.
///
/// If a line cannot be read, says which is the first. A map wider or
/// deeper than 32 bits can count is refused under the number of the line
/// behind the last.
pub fn load_level_from_desc(desc: &str) -> (r: Result<Worldgen, LevelError>)
    ensures
        match (r, level_of(desc@)) {
            (Ok(level), Ok(model)) => level.wf() && level.dims_spec() == (
                model.width as u32,
                model.rows as u32,
            ) && level.tiles_spec() == model.tiles,
            (Err(e), Err(f)) => e == f,
            _ => false,
        },
{
    let chars: Vec<char> = chars_of(desc);
    let lines: Vec<Vec<char>> = split_fields(&chars, '\n');
    let mut reader = LevelReader::new();
    let mut i: usize = 0;
    proof {
        assert(views(lines@).len() == lines@.len());
    }
    while i < lines.len()
        invariant
            i <= lines.len(),
            reader.wf(),
            views(lines@) == fields(desc@, '\n'),
            reader@.with_lines(views(lines@), i as int) == LevelModel::empty().with_lines(
                views(lines@),
                0,
            ),
        decreases lines.len() - i,
    {
        proof {
            assert(views(lines@)[i as int] == lines@[i as int]@);
        }
        if !reader.read_line(&lines[i]) {
            return Err(LevelError { line: i });
        }
        i += 1;
    }
    if reader.width > 0xffff_ffff || reader.rows > 0xffff_ffff {
        return Err(LevelError { line: lines.len() });
    }
    Ok(Worldgen { dims: (reader.width as u32, reader.rows as u32), tiles: reader.tiles })
}

/// A row with a character that stands for no block stays a row that
/// cannot be read, whatever follows.
proof fn lemma_row_stays_bad(blocks: Seq<(char, Tile)>, row: Seq<char>, k: int)
    requires
        0 <= k <= row.len(),
        row_tiles(blocks, row.subrange(0, k)).is_none(),
    ensures
        row_tiles(blocks, row).is_none(),
    decreases row.len() - k,
{
    if k < row.len() {
        assert(row.subrange(0, k + 1).drop_last() =~= row.subrange(0, k));
        lemma_row_stays_bad(blocks, row, k + 1);
    } else {
        assert(row.subrange(0, k) =~= row);
    }
}

} // verus!
