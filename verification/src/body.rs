//! Rigid bodies as the registry knows them: an identity, a collision shape
//! and the tuning values handed to the physics engine.
use std::rc::Rc;
use vstd::prelude::*;
use crate::math::Pnt3;

verus! {

/// The player's ball.
pub const BODY_CATEGORY_PLAYER_BIT: u64 = 1;

/// Loose objects: pickups and props.
pub const BODY_CATEGORY_OBJS_BIT: u64 = 2;

/// The terrain.
pub const BODY_CATEGORY_TERRAIN_BIT: u64 = 4;

/// Driven mechanisms.
pub const BODY_CATEGORY_GEAR_BIT: u64 = 8;

/// Every category.
pub const BODY_CATEGORY_ALL_BIT: u64 = 0xffff_ffff;

/// The player collides with everything.
pub const BODY_COLLIDE_PLAYER: u64 = BODY_CATEGORY_ALL_BIT;

/// Loose objects collide with everything but mechanisms.
pub const BODY_COLLIDE_OBJS: u64 = BODY_CATEGORY_ALL_BIT & !BODY_CATEGORY_GEAR_BIT;

/// The terrain collides with the player and with loose objects.
pub const BODY_COLLIDE_TERRAIN: u64 = BODY_CATEGORY_PLAYER_BIT | BODY_CATEGORY_OBJS_BIT;

/// Mechanisms collide with the player only.
pub const BODY_COLLIDE_GEAR: u64 = BODY_CATEGORY_PLAYER_BIT;

/// Most vertices a triangle soup can have: its indices are 32 bits wide.
pub const MAX_SOUP_VERTICES: usize = 0xffff_ffff;

/// The collision shape of a body.
#[derive(Debug)]
pub enum BodyShape {
    /// A ball.
    Sphere { radius: i64 },
    /// Loose triangles: three coordinates per vertex, three indices per
    /// triangle.
    TriangleSoup { vertices: Vec<i64>, indices: Vec<u32> },
    /// The terrain, of which there is one.
    HeightField,
}

/// Why a shape could not be built.
#[derive(Clone, Copy, Debug, PartialEq, Eq, Structural)]
pub enum ShapeError {
    /// More vertices than 32-bit indices can name.
    TooManyVertices,
}

/// The coordinates of all points in a row: x, y and z of the first, then of
/// the second, and so on.
pub open spec fn flattened(positions: Seq<Pnt3>) -> Seq<i64> {
    Seq::new(
        3 * positions.len(),
        |k: int|
            if k % 3 == 0 {
                positions[k / 3].x
            } else if k % 3 == 1 {
                positions[k / 3].y
            } else {
                positions[k / 3].z
            },
    )
}

impl BodyShape {
    /// The triangle soup whose vertices are `positions` in the order given,
    /// each used once: triangle `t` is made of the points `3t`, `3t + 1`
    /// and `3t + 2`.
    pub fn from_vertices(positions: Vec<Pnt3>) -> (r: Result<BodyShape, ShapeError>)
        ensures
            r.is_ok() <==> positions.len() <= MAX_SOUP_VERTICES,
            r matches Ok(shape) ==> (shape matches BodyShape::TriangleSoup { vertices, indices }
                && vertices@ == flattened(positions@) && indices@ == Seq::new(
                positions.len() as nat,
                |i: int| i as u32,
            )),
            r matches Err(e) ==> e == ShapeError::TooManyVertices,
    {
        let n: usize = positions.len();
        if n > MAX_SOUP_VERTICES {
            return Err(ShapeError::TooManyVertices);
        }
        let mut vertices: Vec<i64> = Vec::new();
        let mut indices: Vec<u32> = Vec::new();
        let mut i: usize = 0;
        while i < n
            invariant
                i <= n,
                n == positions.len(),
                n <= MAX_SOUP_VERTICES,
                vertices.len() == 3 * i,
                indices.len() == i,
                forall|k: int| 0 <= k < 3 * i ==> #[trigger] vertices[k] == flattened(positions@)[k],
                forall|k: int| 0 <= k < i ==> #[trigger] indices[k] == k as u32,
            decreases n - i,
        {
            let p: Pnt3 = positions[i];
            vertices.push(p.x);
            vertices.push(p.y);
            vertices.push(p.z);
            indices.push(i as u32);
            i += 1;
        }
        proof {
            assert(vertices@ =~= flattened(positions@));
            assert(indices@ =~= Seq::new(n as nat, |i: int| i as u32));
        }
        Ok(BodyShape::TriangleSoup { vertices, indices })
    }
}

/// The tuning values of a body.
#[derive(Clone, Copy, Debug)]
pub struct BodyConfig {
    /// Immovable, though it may carry a scripted velocity.
    pub fixed: bool,
    pub friction: i64,
    pub restitution: i64,
    pub density: i64,
    /// The categories the body belongs to.
    pub category_bits: u64,
    /// The categories the body collides with.
    pub collide_bits: u64,
    /// Which sound to play when the body is hit, if any.
    pub collide_sound: Option<usize>,
}

impl Default for BodyConfig {
    /// A loose object: dynamic, friction 0.9, no bounce, unit density.
    fn default() -> (c: BodyConfig)
        ensures
            c == (BodyConfig {
                fixed: false,
                friction: 900_000,
                restitution: 0,
                density: 1_000_000,
                category_bits: BODY_CATEGORY_OBJS_BIT,
                collide_bits: BODY_COLLIDE_OBJS,
                collide_sound: None,
            }),
    {
        BodyConfig {
            fixed: false,
            friction: 900_000,
            restitution: 0,
            density: 1_000_000,
            category_bits: BODY_CATEGORY_OBJS_BIT,
            collide_bits: BODY_COLLIDE_OBJS,
            collide_sound: None,
        }
    }
}

/// The configuration of the terrain's body.
pub open spec fn terrain_config() -> BodyConfig {
    BodyConfig {
        fixed: true,
        friction: 900_000,
        restitution: 0,
        density: 1_000_000,
        category_bits: BODY_CATEGORY_TERRAIN_BIT,
        collide_bits: BODY_COLLIDE_TERRAIN,
        collide_sound: None,
    }
}

/// The configuration of the terrain's body: fixed, in the terrain
/// category, colliding with the player and with loose objects.
pub fn terrain_body_config() -> (c: BodyConfig)
    ensures
        c == terrain_config(),
{
    BodyConfig {
        fixed: true,
        friction: 900_000,
        restitution: 0,
        density: 1_000_000,
        category_bits: BODY_CATEGORY_TERRAIN_BIT,
        collide_bits: BODY_COLLIDE_TERRAIN,
        collide_sound: None,
    }
}

/// Two bodies collide when each one's collide mask holds a category of the
/// other.
pub open spec fn masks_collide(a: BodyConfig, b: BodyConfig) -> bool {
    (a.collide_bits & b.category_bits) != 0 && (b.collide_bits & a.category_bits) != 0
}

/// Collision is mutual: if one body collides with another, the other
/// collides with it.
pub proof fn lemma_collision_is_mutual(a: BodyConfig, b: BodyConfig)
    ensures
        masks_collide(a, b) == masks_collide(b, a),
{
}

impl BodyConfig {
    /// Whether a body configured like `self` and one configured like
    /// `other` collide.
    pub fn collides_with(&self, other: &BodyConfig) -> (r: bool)
        ensures
            r == masks_collide(*self, *other),
    {
        (self.collide_bits & other.category_bits) != 0 && (other.collide_bits
            & self.category_bits) != 0
    }
}

/// What the physics engine needs to build the collision geometry of a body.
#[derive(Clone, Copy, Debug, PartialEq, Eq, Structural)]
pub enum Geometry {
    Sphere { radius: i64 },
    /// A triangle mesh over the vertex and index buffers of the shape.
    /// Strides are in bytes: three doubles per vertex, three 32-bit indices
    /// per triangle.
    TriMesh { vertex_stride: usize, vertex_count: usize, index_count: usize, triangle_stride: usize },
    /// The terrain, whose heights the engine asks for cell by cell.
    HeightField,
}

/// Bytes from one vertex of a triangle mesh to the next: three doubles.
pub const VERTEX_STRIDE: usize = 24;

/// Bytes from one triangle of a triangle mesh to the next: three 32-bit
/// indices.
pub const TRIANGLE_STRIDE: usize = 12;

/// What the engine is told of the geometry of a shape.
pub open spec fn geometry_of(shape: BodyShape) -> Geometry {
    match shape {
        BodyShape::Sphere { radius } => Geometry::Sphere { radius },
        BodyShape::TriangleSoup { vertices, indices } => Geometry::TriMesh {
            vertex_stride: 24,
            vertex_count: (vertices@.len() / 3) as usize,
            index_count: indices@.len() as usize,
            triangle_stride: 12,
        },
        BodyShape::HeightField => Geometry::HeightField,
    }
}

/// What the physics engine needs to build its side of a body.
#[derive(Clone, Copy, Debug, PartialEq, Eq, Structural)]
pub struct BodySetup {
    /// Stored with the engine's body, so that its geometry leads back here.
    pub id: u64,
    /// Kinematic bodies are moved by script, dynamic ones by forces.
    pub kinematic: bool,
    /// For a dynamic body, the density of the unit ball whose mass and
    /// inertia it gets, whatever its shape.
    pub ball_density: Option<i64>,
    pub category_bits: u64,
    pub collide_bits: u64,
    pub geometry: Geometry,
}

/// A rigid body.
#[derive(Debug)]
pub struct Body {
    id: u64,
    mesh: Option<usize>,
    texture: Option<usize>,
    config: BodyConfig,
    shape: Rc<BodyShape>,
    collide_sound: Option<usize>,
    shaded: bool,
}

impl Body {
    /// The identity of the body, which never changes.
    pub closed spec fn id_spec(&self) -> u64 {
        self.id
    }

    /// The tuning values of the body.
    pub closed spec fn config_spec(&self) -> BodyConfig {
        self.config
    }

    /// The collision shape of the body.
    pub closed spec fn shape_spec(&self) -> BodyShape {
        *self.shape
    }

    /// The mesh the body is drawn with, if it is drawn.
    pub closed spec fn mesh_spec(&self) -> Option<usize> {
        self.mesh
    }

    /// The texture the body is drawn with, if it is drawn.
    pub closed spec fn texture_spec(&self) -> Option<usize> {
        self.texture
    }

    /// The sound of the body, if it has one.
    pub closed spec fn collide_sound_spec(&self) -> Option<usize> {
        self.collide_sound
    }

    /// Whether the body is drawn shaded.
    pub closed spec fn shaded_spec(&self) -> bool {
        self.shaded
    }

    /// A body with the given identity. `mesh` and `texture` name what the
    /// renderer draws it with.
    pub fn new(
        id: u64,
        mesh: Option<usize>,
        texture: Option<usize>,
        shape: Rc<BodyShape>,
        config: BodyConfig,
        shaded: bool,
    ) -> (b: Body)
        ensures
            b.id_spec() == id,
            b.mesh_spec() == mesh,
            b.texture_spec() == texture,
            b.shape_spec() == *shape,
            b.config_spec() == config,
            b.collide_sound_spec() == config.collide_sound,
            b.shaded_spec() == shaded,
    {
        Body { id, mesh, texture, config, shape, collide_sound: config.collide_sound, shaded }
    }

    /// The identity of the body.
    pub fn id(&self) -> (id: u64)
        ensures
            id == self.id_spec(),
    {
        self.id
    }

    /// Everything about the body but its identity is as in `other`.
    pub closed spec fn same_but_id(&self, other: &Body) -> bool {
        &&& self.mesh == other.mesh
        &&& self.texture == other.texture
        &&& self.config == other.config
        &&& self.shape == other.shape
        &&& self.collide_sound == other.collide_sound
        &&& self.shaded == other.shaded
    }

    /// Gives the body the identity `id`. Only the registry does this, to
    /// keep the identity of a body what it was when it was added.
    pub(crate) fn pin_id(&mut self, id: u64)
        ensures
            final(self).id_spec() == id,
            final(self).same_but_id(old(self)),
            old(self).id_spec() == id ==> *final(self) == *old(self),
    {
        self.id = id;
    }

    /// The tuning values of the body.
    pub fn config(&self) -> (c: &BodyConfig)
        ensures
            *c == self.config_spec(),
    {
        &self.config
    }

    /// The collision shape of the body.
    pub fn shape(&self) -> (s: &BodyShape)
        ensures
            *s == self.shape_spec(),
    {
        &*self.shape
    }

    /// The mesh the body is drawn with, if it is drawn.
    pub fn mesh(&self) -> (m: Option<usize>)
        ensures
            m == self.mesh_spec(),
    {
        self.mesh
    }

    /// The texture the body is drawn with, if it is drawn.
    pub fn texture(&self) -> (t: Option<usize>)
        ensures
            t == self.texture_spec(),
    {
        self.texture
    }

    /// The sound of the body, if it has one.
    pub fn collide_sound(&self) -> (s: Option<usize>)
        ensures
            s == self.collide_sound_spec(),
    {
        self.collide_sound
    }

    /// Whether the body is drawn shaded.
    pub fn shaded(&self) -> (s: bool)
        ensures
            s == self.shaded_spec(),
    {
        self.shaded
    }

    /// What the physics engine needs to build its side of the body. A
    /// fixed body is kinematic; any other is dynamic and gets the mass of a
    /// ball of radius one and the configured density, whatever its shape.
    pub fn engine_setup(&self) -> (s: BodySetup)
        ensures
            s == (BodySetup {
                id: self.id_spec(),
                kinematic: self.config_spec().fixed,
                ball_density: if self.config_spec().fixed {
                    None
                } else {
                    Some(self.config_spec().density)
                },
                category_bits: self.config_spec().category_bits,
                collide_bits: self.config_spec().collide_bits,
                geometry: geometry_of(self.shape_spec()),
            }),
    {
        let geometry = match &*self.shape {
            BodyShape::Sphere { radius } => Geometry::Sphere { radius: *radius },
            BodyShape::TriangleSoup { vertices, indices } => Geometry::TriMesh {
                vertex_stride: VERTEX_STRIDE,
                vertex_count: vertices.len() / 3,
                index_count: indices.len(),
                triangle_stride: TRIANGLE_STRIDE,
            },
            BodyShape::HeightField => Geometry::HeightField,
        };
        BodySetup {
            id: self.id,
            kinematic: self.config.fixed,
            ball_density: if self.config.fixed {
                None
            } else {
                Some(self.config.density)
            },
            category_bits: self.config.category_bits,
            collide_bits: self.config.collide_bits,
            geometry,
        }
    }

    /// The 4 by 4 transform of a body from its position and its rotation,
    /// row by row: the rotation in the upper left 3 by 3, the position down
    /// the last column, and `(0, 0, 0, 1)` as the last row. `rotation` is
    /// the engine's matrix of three rows, each padded to four entries.
    pub fn get_posrot_homogeneous<T: Copy>(
        position: &[T; 3],
        rotation: &[T; 12],
        zero: T,
        one: T,
    ) -> (m: [[T; 4]; 4])
        ensures
            forall|r: int, c: int| 0 <= r < 3 && 0 <= c < 3 ==> m[r][c] == rotation[4 * r + c],
            forall|r: int| 0 <= r < 3 ==> m[r][3] == position[r],
            m[3][0] == zero && m[3][1] == zero && m[3][2] == zero && m[3][3] == one,
    {
        [
            [rotation[0], rotation[1], rotation[2], position[0]],
            [rotation[4], rotation[5], rotation[6], position[1]],
            [rotation[8], rotation[9], rotation[10], position[2]],
            [zero, zero, zero, one],
        ]
    }

    /// Changes the tuning values of the body. The sound of the body stays
    /// as it is.
    pub fn set_config(&mut self, config: BodyConfig)
        ensures
            final(self).config_spec() == config,
            final(self).id_spec() == old(self).id_spec(),
            final(self).shape_spec() == old(self).shape_spec(),
            final(self).mesh_spec() == old(self).mesh_spec(),
            final(self).texture_spec() == old(self).texture_spec(),
            final(self).collide_sound_spec() == old(self).collide_sound_spec(),
            final(self).shaded_spec() == old(self).shaded_spec(),
    {
        self.config = config;
    }

    /// Changes what the body is drawn with.
    pub fn set_appearance(&mut self, mesh: Option<usize>, texture: Option<usize>, shaded: bool)
        ensures
            final(self).mesh_spec() == mesh,
            final(self).texture_spec() == texture,
            final(self).shaded_spec() == shaded,
            final(self).id_spec() == old(self).id_spec(),
            final(self).shape_spec() == old(self).shape_spec(),
            final(self).config_spec() == old(self).config_spec(),
            final(self).collide_sound_spec() == old(self).collide_sound_spec(),
    {
        self.mesh = mesh;
        self.texture = texture;
        self.shaded = shaded;
    }

    /// Changes the sound of the body.
    pub fn set_collide_sound(&mut self, sound: Option<usize>)
        ensures
            final(self).collide_sound_spec() == sound,
            final(self).id_spec() == old(self).id_spec(),
            final(self).shape_spec() == old(self).shape_spec(),
            final(self).config_spec() == old(self).config_spec(),
            final(self).mesh_spec() == old(self).mesh_spec(),
            final(self).texture_spec() == old(self).texture_spec(),
            final(self).shaded_spec() == old(self).shaded_spec(),
    {
        self.collide_sound = sound;
    }

    /// Whether this body and `other` collide: each one's collide mask must
    /// hold a category of the other.
    pub fn collides_with(&self, other: &Body) -> (r: bool)
        ensures
            r == masks_collide(self.config_spec(), other.config_spec()),
    {
        self.config.collides_with(&other.config)
    }
}

} // verus!
