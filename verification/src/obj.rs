//! Reading triangle meshes from Wavefront text.
//!
//! Of the format, four kinds of line are understood:
//!
//! ```text
//! v  x y z        a point
//! vn x y z        a normal, brought to unit length
//! vt u v          a texture coordinate
//! f  a b c        a triangle; each corner is `p` or `p/t/n`
//! ```
//!
//! Corners name points, texture coordinates and normals by number: from 1
//! counting from the first, or from -1 counting back from the last one
//! read so far. Anything else in the file is passed over.
use vstd::prelude::*;
use crate::fixed::ONE;
use crate::fixed::trunc_div;
use crate::math::Pnt3;
use crate::math::Vec3;
use crate::text::chars_of;
use crate::text::fields;
use crate::text::parse_fixed;
use crate::text::parse_fixed_spec;
use crate::text::parse_index;
use crate::text::parse_index_spec;
use crate::text::split_fields;
use crate::text::split_words;
use crate::text::views;
use crate::text::words;

verus! {

/// A line of a mesh file could not be read.
#[derive(Clone, Copy, Debug, PartialEq, Eq, Structural)]
pub struct ObjError {
    /// The line that is at fault, counting from zero.
    pub line: usize,
}

/// A corner of a triangle as written: the number of its point, and, if
/// given, those of its texture coordinate and its normal. Numbers are
/// already one less than written.
pub struct Corner {
    pub point: i64,
    pub texture: Option<i64>,
    pub normal: Option<i64>,
}

/// What has been read of a mesh file.
pub struct ObjModel {
    /// The points, normals and texture coordinates that were declared.
    pub points: Seq<Pnt3>,
    pub normals: Seq<Vec3>,
    pub texcoords: Seq<Pnt3>,
    /// The corners of the triangles, three each: where they are, their
    /// normals, and their texture coordinates.
    pub tri_points: Seq<Pnt3>,
    pub tri_normals: Seq<Vec3>,
    pub tri_texcoords: Seq<Pnt3>,
}

/// The number one less than the whole number that `s` writes.
pub open spec fn index_before(s: Seq<char>) -> Option<i64> {
    match parse_index_spec(s) {
        Some(v) => Some((v - 1) as i64),
        None => None,
    }
}

/// The corner that a word writes: either the number of a point alone, or
/// three fields between slashes, of which the first must be a number.
pub open spec fn corner_of(word: Seq<char>) -> Option<Corner> {
    let f = fields(word, '/');
    if f.len() == 1 {
        match index_before(word) {
            Some(p) => Some(Corner { point: p, texture: None, normal: None }),
            None => None,
        }
    } else if f.len() == 3 {
        match index_before(f[0]) {
            Some(p) => Some(
                Corner { point: p, texture: index_before(f[1]), normal: index_before(f[2]) },
            ),
            None => None,
        }
    } else {
        None
    }
}

/// The place in a list of `len` entries that the number `i` names, if it
/// names one: `i` itself, or counted from behind if `i` is negative.
pub open spec fn place(i: int, len: int) -> Option<int> {
    let k = if i < 0 {
        len + i + 1
    } else {
        i
    };
    if 0 <= k < len {
        Some(k)
    } else {
        None
    }
}

/// The number that the word at place `k` writes, if there is one.
pub open spec fn number_at(toks: Seq<Seq<char>>, k: int) -> Option<i64> {
    if 0 <= k < toks.len() {
        parse_fixed_spec(toks[k])
    } else {
        None
    }
}

/// The three numbers behind the first word of a line.
pub open spec fn triple_of(toks: Seq<Seq<char>>) -> Option<(i64, i64, i64)> {
    if number_at(toks, 1).is_some() && number_at(toks, 2).is_some() && number_at(toks, 3).is_some() {
        Some((number_at(toks, 1).unwrap(), number_at(toks, 2).unwrap(), number_at(toks, 3).unwrap()))
    } else {
        None
    }
}

/// Every component is small enough to be multiplied by another such.
pub open spec fn fits(v: (int, int, int)) -> bool {
    &&& -0x2000_0000_0000_0000 <= v.0 <= 0x2000_0000_0000_0000
    &&& -0x2000_0000_0000_0000 <= v.1 <= 0x2000_0000_0000_0000
    &&& -0x2000_0000_0000_0000 <= v.2 <= 0x2000_0000_0000_0000
}

/// The vector halved, every component rounded toward zero.
pub open spec fn halved(v: (int, int, int)) -> (int, int, int) {
    (trunc_div(v.0, 2), trunc_div(v.1, 2), trunc_div(v.2, 2))
}

/// The sum of the sizes of the components.
pub open spec fn size(v: (int, int, int)) -> int {
    (if v.0 < 0 {
        -v.0
    } else {
        v.0
    }) + (if v.1 < 0 {
        -v.1
    } else {
        v.1
    }) + (if v.2 < 0 {
        -v.2
    } else {
        v.2
    })
}

/// The vector halved until it fits. Halving changes the length of a
/// vector, and its direction hardly at all.
pub open spec fn fitted(v: (int, int, int)) -> (int, int, int)
    decreases size(v),
{
    if fits(v) {
        v
    } else {
        fitted(halved(v))
    }
}

/// A fitted vector fits.
pub proof fn lemma_fitted_fits(v: (int, int, int))
    ensures
        fits(fitted(v)),
    decreases size(v),
{
    if !fits(v) {
        lemma_fitted_fits(halved(v));
    }
}

/// The cross product.
pub open spec fn cross(u: (int, int, int), v: (int, int, int)) -> (int, int, int) {
    (u.1 * v.2 - u.2 * v.1, u.2 * v.0 - u.0 * v.2, u.0 * v.1 - u.1 * v.0)
}

/// The vector of unit length along `v`; the zero vector for the zero
/// vector.
pub open spec fn unit(v: Vec3) -> Vec3 {
    let n = v.scaled_to_spec(ONE as int);
    Vec3 { x: n.0 as i64, y: n.1 as i64, z: n.2 as i64 }
}

/// The normal of the triangle `a`, `b`, `c`: of unit length, at right
/// angles to the triangle, on the side from which the corners run
/// counter-clockwise. A triangle without area has the zero vector.
pub open spec fn face_normal(a: Pnt3, b: Pnt3, c: Pnt3) -> Vec3 {
    let u = fitted((b.x - a.x, b.y - a.y, b.z - a.z));
    let v = fitted((c.x - a.x, c.y - a.y, c.z - a.z));
    let n = fitted(cross(u, v));
    unit(Vec3 { x: n.0 as i64, y: n.1 as i64, z: n.2 as i64 })
}

impl ObjModel {
    /// Nothing read yet.
    pub open spec fn empty() -> ObjModel {
        ObjModel {
            points: Seq::empty(),
            normals: Seq::empty(),
            texcoords: Seq::empty(),
            tri_points: Seq::empty(),
            tri_normals: Seq::empty(),
            tri_texcoords: Seq::empty(),
        }
    }

    /// The point that a corner names, if it names one.
    pub open spec fn point_of(self, c: Corner) -> Option<Pnt3> {
        match place(c.point as int, self.points.len() as int) {
            Some(k) => Some(self.points[k]),
            None => None,
        }
    }

    /// The normal that a corner names, if it names one.
    pub open spec fn normal_of(self, c: Corner) -> Option<Vec3> {
        match c.normal {
            Some(i) => match place(i as int, self.normals.len() as int) {
                Some(k) => Some(self.normals[k]),
                None => None,
            },
            None => None,
        }
    }

    /// The texture coordinate that a corner names, if it names one.
    pub open spec fn texcoord_of(self, c: Corner) -> Option<Pnt3> {
        match c.texture {
            Some(i) => match place(i as int, self.texcoords.len() as int) {
                Some(k) => Some(self.texcoords[k]),
                None => None,
            },
            None => None,
        }
    }

    /// The model after a triangle with the corners `a`, `b`, `c`, if the
    /// corners name what is there.
    ///
    /// If the first corner names no normal, all three get the normal of
    /// the face; else each must name its own. If the first corner names no
    /// texture coordinate, all three get zero; else each must name its
    /// own.
    pub open spec fn with_face(self, a: Corner, b: Corner, c: Corner) -> Option<ObjModel> {
        if self.point_of(a).is_none() || self.point_of(b).is_none() || self.point_of(c).is_none() {
            None
        } else if a.normal.is_some() && (self.normal_of(a).is_none() || self.normal_of(b).is_none()
            || self.normal_of(c).is_none()) {
            None
        } else if a.texture.is_some() && (self.texcoord_of(a).is_none() || self.texcoord_of(
            b,
        ).is_none() || self.texcoord_of(c).is_none()) {
            None
        } else {
            let pa = self.point_of(a).unwrap();
            let pb = self.point_of(b).unwrap();
            let pc = self.point_of(c).unwrap();
            let flat = face_normal(pa, pb, pc);
            let zero = Pnt3 { x: 0, y: 0, z: 0 };
            Some(
                ObjModel {
                    tri_points: self.tri_points.push(pa).push(pb).push(pc),
                    tri_normals: if a.normal.is_some() {
                        self.tri_normals.push(self.normal_of(a).unwrap()).push(
                            self.normal_of(b).unwrap(),
                        ).push(self.normal_of(c).unwrap())
                    } else {
                        self.tri_normals.push(flat).push(flat).push(flat)
                    },
                    tri_texcoords: if a.texture.is_some() {
                        self.tri_texcoords.push(self.texcoord_of(a).unwrap()).push(
                            self.texcoord_of(b).unwrap(),
                        ).push(self.texcoord_of(c).unwrap())
                    } else {
                        self.tri_texcoords.push(zero).push(zero).push(zero)
                    },
                    ..self
                },
            )
        }
    }

    /// The model after a line with the given words, if the line can be
    /// read.
    pub open spec fn with_words(self, toks: Seq<Seq<char>>) -> Option<ObjModel> {
        if toks.len() == 0 {
            Some(self)
        } else if toks[0] == seq!['v'] {
            match triple_of(toks) {
                Some(t) => Some(
                    ObjModel { points: self.points.push(Pnt3 { x: t.0, y: t.1, z: t.2 }), ..self },
                ),
                None => None,
            }
        } else if toks[0] == seq!['v', 'n'] {
            match triple_of(toks) {
                Some(t) => Some(
                    ObjModel {
                        normals: self.normals.push(unit(Vec3 { x: t.0, y: t.1, z: t.2 })),
                        ..self
                    },
                ),
                None => None,
            }
        } else if toks[0] == seq!['v', 't'] {
            if number_at(toks, 1).is_some() && number_at(toks, 2).is_some() {
                Some(
                    ObjModel {
                        texcoords: self.texcoords.push(
                            Pnt3 {
                                x: number_at(toks, 1).unwrap(),
                                y: number_at(toks, 2).unwrap(),
                                z: number_at(toks, 2).unwrap(),
                            },
                        ),
                        ..self
                    },
                )
            } else {
                None
            }
        } else if toks[0] == seq!['f'] {
            if toks.len() < 4 {
                None
            } else {
                match (corner_of(toks[1]), corner_of(toks[2]), corner_of(toks[3])) {
                    (Some(a), Some(b), Some(c)) => self.with_face(a, b, c),
                    _ => None,
                }
            }
        } else {
            Some(self)
        }
    }

    /// The model after the lines from `from` on were read, or the first
    /// line among them that cannot be read.
    pub open spec fn with_lines(self, lines: Seq<String>, from: int) -> Result<ObjModel, ObjError>
        decreases lines.len() - from,
    {
        if from >= lines.len() {
            Ok(self)
        } else {
            match self.with_words(words(lines[from]@)) {
                Some(next) => next.with_lines(lines, from + 1),
                None => Err(ObjError { line: from as usize }),
            }
        }
    }
}


/// Halves a vector until it fits.
fn fit(v: (i128, i128, i128)) -> (r: (i64, i64, i64))
    ensures
        (r.0 as int, r.1 as int, r.2 as int) == fitted((v.0 as int, v.1 as int, v.2 as int)),
        fits((r.0 as int, r.1 as int, r.2 as int)),
{
    let mut x: i128 = v.0;
    let mut y: i128 = v.1;
    let mut z: i128 = v.2;
    while !(-0x2000_0000_0000_0000 <= x && x <= 0x2000_0000_0000_0000 && -0x2000_0000_0000_0000
        <= y && y <= 0x2000_0000_0000_0000 && -0x2000_0000_0000_0000 <= z && z
        <= 0x2000_0000_0000_0000)
        invariant
            fitted((x as int, y as int, z as int)) == fitted((v.0 as int, v.1 as int, v.2 as int)),
        decreases size((x as int, y as int, z as int)),
    {
        x = x / 2;
        y = y / 2;
        z = z / 2;
    }
    (x as i64, y as i64, z as i64)
}

/// The normal of a triangle.
fn normal_of_face(a: &Pnt3, b: &Pnt3, c: &Pnt3) -> (n: Vec3)
    ensures
        n == face_normal(*a, *b, *c),
{
    let u = fit(
        (
            (b.x as i128) - (a.x as i128),
            (b.y as i128) - (a.y as i128),
            (b.z as i128) - (a.z as i128),
        ),
    );
    let v = fit(
        (
            (c.x as i128) - (a.x as i128),
            (c.y as i128) - (a.y as i128),
            (c.z as i128) - (a.z as i128),
        ),
    );
    let (ux, uy, uz) = (u.0 as i128, u.1 as i128, u.2 as i128);
    let (vx, vy, vz) = (v.0 as i128, v.1 as i128, v.2 as i128);
    proof {
        lemma_product_fits(ux as int, vx as int);
        lemma_product_fits(ux as int, vy as int);
        lemma_product_fits(ux as int, vz as int);
        lemma_product_fits(uy as int, vx as int);
        lemma_product_fits(uy as int, vy as int);
        lemma_product_fits(uy as int, vz as int);
        lemma_product_fits(uz as int, vx as int);
        lemma_product_fits(uz as int, vy as int);
        lemma_product_fits(uz as int, vz as int);
    }
    let n = fit((uy * vz - uz * vy, uz * vx - ux * vz, ux * vy - uy * vx));
    Vec3 { x: n.0, y: n.1, z: n.2 }.scaled_to(ONE as u32)
}

/// The product of two components that fit is far from the ends of the
/// number range.
proof fn lemma_product_fits(a: int, b: int)
    by (nonlinear_arith)
    requires
        -0x2000_0000_0000_0000 <= a <= 0x2000_0000_0000_0000,
        -0x2000_0000_0000_0000 <= b <= 0x2000_0000_0000_0000,
    ensures
        -0x2000_0000_0000_0000 * 0x2000_0000_0000_0000 <= a * b <= 0x2000_0000_0000_0000
            * 0x2000_0000_0000_0000,
{
}

/// The vector of unit length along `v`.
fn unit_of(v: Vec3) -> (n: Vec3)
    ensures
        n == unit(v),
{
    v.scaled_to(ONE as u32)
}

/// The number one less than the whole number that `s` writes.
fn read_index(s: &Vec<char>) -> (r: Option<i64>)
    ensures
        r == index_before(s@),
{
    match parse_index(s) {
        Some(v) => Some(v - 1),
        None => None,
    }
}

/// The corner that a word writes.
fn read_corner(word: &Vec<char>) -> (r: Option<Corner>)
    ensures
        r == corner_of(word@),
{
    let f: Vec<Vec<char>> = split_fields(word, '/');
    proof {
        assert(views(f@).len() == f@.len());
    }
    if f.len() == 1 {
        match read_index(word) {
            Some(p) => Some(Corner { point: p, texture: None, normal: None }),
            None => None,
        }
    } else if f.len() == 3 {
        proof {
            assert(views(f@)[0] == f@[0]@);
            assert(views(f@)[1] == f@[1]@);
            assert(views(f@)[2] == f@[2]@);
        }
        match read_index(&f[0]) {
            Some(p) => Some(
                Corner { point: p, texture: read_index(&f[1]), normal: read_index(&f[2]) },
            ),
            None => None,
        }
    } else {
        None
    }
}

/// The number that the word at place `k` writes.
fn read_number(toks: &Vec<Vec<char>>, k: usize) -> (r: Option<i64>)
    ensures
        r == number_at(views(toks@), k as int),
{
    if k < toks.len() {
        proof {
            assert(views(toks@)[k as int] == toks@[k as int]@);
        }
        parse_fixed(&toks[k])
    } else {
        None
    }
}

/// The three numbers behind the first word of a line.
fn read_triple(toks: &Vec<Vec<char>>) -> (r: Option<(i64, i64, i64)>)
    ensures
        r == triple_of(views(toks@)),
{
    match (read_number(toks, 1), read_number(toks, 2), read_number(toks, 3)) {
        (Some(x), Some(y), Some(z)) => Some((x, y, z)),
        _ => None,
    }
}

/// The place in a list of `len` entries that the number `i` names.
fn find_place(i: i64, len: usize) -> (r: Option<usize>)
    ensures
        r.is_some() == place(i as int, len as int).is_some(),
        r matches Some(k) ==> place(i as int, len as int) == Some(k as int) && k < len,
{
    let k: i128 = if i < 0 {
        (len as i128) + (i as i128) + 1
    } else {
        i as i128
    };
    if 0 <= k && k < len as i128 {
        Some(k as usize)
    } else {
        None
    }
}

/// Whether `w` is the one-letter word `a`.
fn is_letter(w: &Vec<char>, a: char) -> (r: bool)
    ensures
        r == (w@ == seq![a]),
{
    if w.len() == 1 && w[0] == a {
        proof {
            assert(w@ =~= seq![a]);
        }
        true
    } else {
        proof {
            if w@ == seq![a] {
                assert(seq![a].len() == 1);
                assert(seq![a][0] == a);
            }
        }
        false
    }
}

/// Whether `w` is the two-letter word `a`, `b`.
fn is_pair(w: &Vec<char>, a: char, b: char) -> (r: bool)
    ensures
        r == (w@ == seq![a, b]),
{
    if w.len() == 2 && w[0] == a && w[1] == b {
        proof {
            assert(w@ =~= seq![a, b]);
        }
        true
    } else {
        proof {
            if w@ == seq![a, b] {
                assert(seq![a, b].len() == 2);
                assert(seq![a, b][0] == a);
                assert(seq![a, b][1] == b);
            }
        }
        false
    }
}

/// A mesh file as it is read.
pub struct ObjReader {
    points: Vec<Pnt3>,
    normals: Vec<Vec3>,
    texcoords: Vec<Pnt3>,
    tri_points: Vec<Pnt3>,
    tri_normals: Vec<Vec3>,
    tri_texcoords: Vec<Pnt3>,
}

impl View for ObjReader {
    type V = ObjModel;

    closed spec fn view(&self) -> ObjModel {
        ObjModel {
            points: self.points@,
            normals: self.normals@,
            texcoords: self.texcoords@,
            tri_points: self.tri_points@,
            tri_normals: self.tri_normals@,
            tri_texcoords: self.tri_texcoords@,
        }
    }
}

impl ObjReader {
    /// A reader that has read nothing.
    pub fn new() -> (r: ObjReader)
        ensures
            r@ == ObjModel::empty(),
    {
        ObjReader {
            points: Vec::new(),
            normals: Vec::new(),
            texcoords: Vec::new(),
            tri_points: Vec::new(),
            tri_normals: Vec::new(),
            tri_texcoords: Vec::new(),
        }
    }

    fn point_at(&self, c: &Corner) -> (r: Option<Pnt3>)
        ensures
            r == self@.point_of(*c),
    {
        match find_place(c.point, self.points.len()) {
            Some(k) => Some(self.points[k]),
            None => None,
        }
    }

    fn normal_at(&self, c: &Corner) -> (r: Option<Vec3>)
        ensures
            r == self@.normal_of(*c),
    {
        match c.normal {
            Some(i) => match find_place(i, self.normals.len()) {
                Some(k) => Some(self.normals[k]),
                None => None,
            },
            None => None,
        }
    }

    fn texcoord_at(&self, c: &Corner) -> (r: Option<Pnt3>)
        ensures
            r == self@.texcoord_of(*c),
    {
        match c.texture {
            Some(i) => match find_place(i, self.texcoords.len()) {
                Some(k) => Some(self.texcoords[k]),
                None => None,
            },
            None => None,
        }
    }

    /// Reads a triangle. Says whether the corners name what is there; if
    /// they do not, nothing is read.
    fn read_face(&mut self, a: &Corner, b: &Corner, c: &Corner) -> (ok: bool)
        ensures
            ok == old(self)@.with_face(*a, *b, *c).is_some(),
            ok ==> Some(final(self)@) == old(self)@.with_face(*a, *b, *c),
            !ok ==> final(self)@ == old(self)@,
    {
        let (pa, pb, pc) = match (self.point_at(a), self.point_at(b), self.point_at(c)) {
            (Some(pa), Some(pb), Some(pc)) => (pa, pb, pc),
            _ => {
                return false;
            },
        };
        let normals: (Vec3, Vec3, Vec3) = if a.normal.is_some() {
            match (self.normal_at(a), self.normal_at(b), self.normal_at(c)) {
                (Some(na), Some(nb), Some(nc)) => (na, nb, nc),
                _ => {
                    return false;
                },
            }
        } else {
            let flat = normal_of_face(&pa, &pb, &pc);
            (flat, flat, flat)
        };
        let texcoords: (Pnt3, Pnt3, Pnt3) = if a.texture.is_some() {
            match (self.texcoord_at(a), self.texcoord_at(b), self.texcoord_at(c)) {
                (Some(ta), Some(tb), Some(tc)) => (ta, tb, tc),
                _ => {
                    return false;
                },
            }
        } else {
            let zero = Pnt3 { x: 0, y: 0, z: 0 };
            (zero, zero, zero)
        };
        self.tri_points.push(pa);
        self.tri_points.push(pb);
        self.tri_points.push(pc);
        self.tri_normals.push(normals.0);
        self.tri_normals.push(normals.1);
        self.tri_normals.push(normals.2);
        self.tri_texcoords.push(texcoords.0);
        self.tri_texcoords.push(texcoords.1);
        self.tri_texcoords.push(texcoords.2);
        true
    }

    /// Reads one line. Says whether the line could be read; if it could
    /// not, nothing is read.
    pub fn read_line(&mut self, line: &str) -> (ok: bool)
        ensures
            ok == old(self)@.with_words(words(line@)).is_some(),
            ok ==> Some(final(self)@) == old(self)@.with_words(words(line@)),
            !ok ==> final(self)@ == old(self)@,
    {
        let chars: Vec<char> = chars_of(line);
        let toks: Vec<Vec<char>> = split_words(&chars);
        proof {
            assert(views(toks@).len() == toks@.len());
            if toks.len() > 0 {
                assert(views(toks@)[0] == toks@[0]@);
            }
        }
        if toks.len() == 0 {
            true
        } else if is_letter(&toks[0], 'v') {
            match read_triple(&toks) {
                Some(t) => {
                    self.points.push(Pnt3 { x: t.0, y: t.1, z: t.2 });
                    true
                },
                None => false,
            }
        } else if is_pair(&toks[0], 'v', 'n') {
            match read_triple(&toks) {
                Some(t) => {
                    self.normals.push(unit_of(Vec3 { x: t.0, y: t.1, z: t.2 }));
                    true
                },
                None => false,
            }
        } else if is_pair(&toks[0], 'v', 't') {
            match (read_number(&toks, 1), read_number(&toks, 2)) {
                (Some(u), Some(v)) => {
                    self.texcoords.push(Pnt3 { x: u, y: v, z: v });
                    true
                },
                _ => false,
            }
        } else if is_letter(&toks[0], 'f') {
            if toks.len() < 4 {
                false
            } else {
                proof {
                    assert(views(toks@)[1] == toks@[1]@);
                    assert(views(toks@)[2] == toks@[2]@);
                    assert(views(toks@)[3] == toks@[3]@);
                }
                match (read_corner(&toks[1]), read_corner(&toks[2]), read_corner(&toks[3])) {
                    (Some(a), Some(b), Some(c)) => self.read_face(&a, &b, &c),
                    _ => false,
                }
            }
        } else {
            true
        }
    }

    /// What was read: for every corner of every triangle, in the order of
    /// the file, where it is, its normal and its texture coordinate.
    pub fn finish(self) -> (r: (Vec<Pnt3>, Vec<Vec3>, Vec<Pnt3>))
        ensures
            r.0@ == self@.tri_points,
            r.1@ == self@.tri_normals,
            r.2@ == self@.tri_texcoords,
    {
        (self.tri_points, self.tri_normals, self.tri_texcoords)
    }
}

/// Reads a mesh from the lines of a file: for every corner of every
/// triangle, in the order of the file, where it is, its normal and its
/// texture coordinate. If a line cannot be read, says which is the first.
pub fn load_obj(lines: &Vec<String>) -> (r: Result<(Vec<Pnt3>, Vec<Vec3>, Vec<Pnt3>), ObjError>)
    ensures
        match (r, ObjModel::empty().with_lines(lines@, 0)) {
            (Ok(mesh), Ok(model)) => mesh.0@ == model.tri_points && mesh.1@ == model.tri_normals
                && mesh.2@ == model.tri_texcoords,
            (Err(e), Err(f)) => e == f,
            _ => false,
        },
{
    let mut reader = ObjReader::new();
    let mut i: usize = 0;
    while i < lines.len()
        invariant
            i <= lines.len(),
            reader@.with_lines(lines@, i as int) == ObjModel::empty().with_lines(lines@, 0),
        decreases lines.len() - i,
    {
        if !reader.read_line(lines[i].as_str()) {
            return Err(ObjError { line: i });
        }
        i += 1;
    }
    Ok(reader.finish())
}

} // verus!
