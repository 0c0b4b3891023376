//! Handing the terrain to a mesh builder: every cell of a chunk becomes two
//! triangles with their corners, face normal and kind of ground.

use vstd::prelude::*;
use crate::aabb::homogeneous_spec;
use crate::fixed::{Fixed, lemma_mul_one, lemma_mul_zero};
use crate::heightfield::{Grid, PerlinMap, MAX_WIDTH, lemma_row_in_range};
use crate::query::{tri_normal, tri_normal_spec, up_spec};
use crate::vector::{Mat4, Vec2, Vec3, Vec4};

verus! {

/// What covers a triangle of the terrain.
#[derive(Clone, Copy, Debug, PartialEq, Eq, Structural)]
pub enum Ground {
    Sand,
    Stone,
    Grass,
}

/// One corner of a triangle.
#[derive(Clone, Copy, Debug, PartialEq, Eq, Structural)]
pub struct Corner {
    /// Where the corner lies, measured from the origin of its chunk.
    pub position: Vec3,
    /// Where the corner lies in its cell: zero or one along each axis.
    pub uv: Vec2,
}

/// One triangle of the tessellated terrain.
#[derive(Clone, Copy, Debug, PartialEq, Eq, Structural)]
pub struct Facet {
    pub a: Corner,
    pub b: Corner,
    pub c: Corner,
    /// The unit normal of the face.
    pub normal: Vec3,
    pub ground: Ground,
}

/// Below this mean height a triangle lies on the beach.
pub open spec fn beach_level_spec() -> Fixed {
    Fixed::spec_ratio(1, 2)
}

/// A triangle flatter than this carries grass or sand, a steeper one stone.
pub open spec fn steepness_limit_spec() -> Fixed {
    Fixed::spec_ratio(9, 10)
}

/// What covers a triangle with the mean height `avg_z` and the flatness
/// `flatness`: sand low down and on low flat ground, stone where it is
/// steep, grass elsewhere.
pub open spec fn ground_spec(avg_z: Fixed, flatness: Fixed) -> Ground {
    let limit = steepness_limit_spec();
    if avg_z.raw < beach_level_spec().raw || (avg_z.raw < limit.spec_mul(flatness).raw
        && limit.raw < flatness.raw) {
        Ground::Sand
    } else if flatness.raw < limit.raw {
        Ground::Stone
    } else {
        Ground::Grass
    }
}

/// The column offset of corner `k` of a triangle: the half of a cell at its
/// origin has the corners `(0, 0)`, `(1, 0)`, `(0, 1)`, the opposite half
/// `(1, 0)`, `(1, 1)`, `(0, 1)`.
pub open spec fn corner_dx_spec(upper: bool, k: int) -> int {
    if upper {
        if k == 2 {
            0
        } else {
            1
        }
    } else {
        if k == 1 {
            1
        } else {
            0
        }
    }
}

/// The row offset of corner `k` of a triangle.
pub open spec fn corner_dy_spec(upper: bool, k: int) -> int {
    if upper {
        if k == 0 {
            0
        } else {
            1
        }
    } else {
        if k == 2 {
            1
        } else {
            0
        }
    }
}

impl Grid {
    /// The grid point `(x, y)` as a point in space, at the height of the
    /// surface there.
    pub open spec fn surface_point(self, x: int, y: int) -> Vec3 {
        let px = Fixed::spec_from_int(x as i32);
        let py = Fixed::spec_from_int(y as i32);
        Vec3 { x: px, y: py, z: self.height(Vec2 { x: px, y: py }) }
    }

    /// Corner `k` of the triangle in the given half of the cell `(x, y)`,
    /// for a chunk with its origin at `(chunk_x, chunk_y)`.
    pub open spec fn facet_corner(
        self,
        x: int,
        y: int,
        chunk_x: int,
        chunk_y: int,
        upper: bool,
        k: int,
    ) -> Corner {
        let dx = corner_dx_spec(upper, k);
        let dy = corner_dy_spec(upper, k);
        let p = self.surface_point(x + dx, y + dy);
        Corner {
            position: Vec3 {
                x: p.x.spec_sub(Fixed::spec_from_int(chunk_x as i32)),
                y: p.y.spec_sub(Fixed::spec_from_int(chunk_y as i32)),
                z: p.z,
            },
            uv: Vec2 { x: Fixed::spec_from_int(dx as i32), y: Fixed::spec_from_int(dy as i32) },
        }
    }

    /// The triangle in the given half of the cell `(x, y)`: its corners, the
    /// unit normal of the face through them, and what covers it, judged by
    /// the mean height of the corners and the flatness of the face.
    pub open spec fn facet(self, x: int, y: int, chunk_x: int, chunk_y: int, upper: bool) -> Facet {
        let p0 = self.surface_point(x + corner_dx_spec(upper, 0), y + corner_dy_spec(upper, 0));
        let p1 = self.surface_point(x + corner_dx_spec(upper, 1), y + corner_dy_spec(upper, 1));
        let p2 = self.surface_point(x + corner_dx_spec(upper, 2), y + corner_dy_spec(upper, 2));
        let normal = tri_normal_spec(p0, p1, p2);
        let avg_z = p0.z.spec_add(p1.z).spec_add(p2.z).spec_div(Fixed::spec_from_int(3));
        Facet {
            a: self.facet_corner(x, y, chunk_x, chunk_y, upper, 0),
            b: self.facet_corner(x, y, chunk_x, chunk_y, upper, 1),
            c: self.facet_corner(x, y, chunk_x, chunk_y, upper, 2),
            normal,
            ground: ground_spec(avg_z, normal.spec_dot(up_spec())),
        }
    }
}

/// What covers a triangle with the given mean height and flatness.
pub fn ground(avg_z: Fixed, flatness: Fixed) -> (r: Ground)
    ensures
        r == ground_spec(avg_z, flatness),
{
    let limit = Fixed::ratio(9, 10);
    if avg_z.raw < Fixed::ratio(1, 2).raw || (avg_z.raw < limit.mul(flatness).raw && limit.raw
        < flatness.raw) {
        Ground::Sand
    } else if flatness.raw < limit.raw {
        Ground::Stone
    } else {
        Ground::Grass
    }
}

fn corner_dx(upper: bool, k: usize) -> (r: usize)
    ensures
        r == corner_dx_spec(upper, k as int),
        r <= 1,
{
    if upper {
        if k == 2 {
            0
        } else {
            1
        }
    } else {
        if k == 1 {
            1
        } else {
            0
        }
    }
}

fn corner_dy(upper: bool, k: usize) -> (r: usize)
    ensures
        r == corner_dy_spec(upper, k as int),
        r <= 1,
{
    if upper {
        if k == 0 {
            0
        } else {
            1
        }
    } else {
        if k == 2 {
            1
        } else {
            0
        }
    }
}

fn surface_point(tiles: &PerlinMap, x: usize, y: usize) -> (r: Vec3)
    requires
        tiles.wf(),
        x <= MAX_WIDTH,
        y <= MAX_WIDTH,
    ensures
        r == tiles@.surface_point(x as int, y as int),
{
    let px = Fixed::from_int(x as i32);
    let py = Fixed::from_int(y as i32);
    Vec3 { x: px, y: py, z: tiles.height(Vec2 { x: px, y: py }) }
}

fn facet_corner(
    tiles: &PerlinMap,
    x: usize,
    y: usize,
    chunk_x: usize,
    chunk_y: usize,
    upper: bool,
    k: usize,
) -> (r: (Corner, Vec3))
    requires
        tiles.wf(),
        x < MAX_WIDTH,
        y < MAX_WIDTH,
        chunk_x <= MAX_WIDTH,
        chunk_y <= MAX_WIDTH,
    ensures
        r.0 == tiles@.facet_corner(
            x as int,
            y as int,
            chunk_x as int,
            chunk_y as int,
            upper,
            k as int,
        ),
        r.1 == tiles@.surface_point(
            x + corner_dx_spec(upper, k as int),
            y + corner_dy_spec(upper, k as int),
        ),
{
    let dx: usize = corner_dx(upper, k);
    let dy: usize = corner_dy(upper, k);
    let p = surface_point(tiles, x + dx, y + dy);
    let corner = Corner {
        position: Vec3 {
            x: p.x.sub(Fixed::from_int(chunk_x as i32)),
            y: p.y.sub(Fixed::from_int(chunk_y as i32)),
            z: p.z,
        },
        uv: Vec2 { x: Fixed::from_int(dx as i32), y: Fixed::from_int(dy as i32) },
    };
    (corner, p)
}

/// Adds the triangle in the given half of the cell `(x, y)` to the facets
/// of a chunk with its origin at `(chunk_x, chunk_y)`.
pub fn add_triangle(
    tiles: &PerlinMap,
    facets: &mut Vec<Facet>,
    x: usize,
    y: usize,
    chunk_x: usize,
    chunk_y: usize,
    upper: bool,
)
    requires
        tiles.wf(),
        x < MAX_WIDTH,
        y < MAX_WIDTH,
        chunk_x <= MAX_WIDTH,
        chunk_y <= MAX_WIDTH,
    ensures
        final(facets)@ == old(facets)@.push(
            tiles@.facet(x as int, y as int, chunk_x as int, chunk_y as int, upper),
        ),
{
    let (a, p0) = facet_corner(tiles, x, y, chunk_x, chunk_y, upper, 0);
    let (b, p1) = facet_corner(tiles, x, y, chunk_x, chunk_y, upper, 1);
    let (c, p2) = facet_corner(tiles, x, y, chunk_x, chunk_y, upper, 2);
    let normal = tri_normal(p0, p1, p2);
    let up = Vec3 { x: Fixed::zero(), y: Fixed::zero(), z: Fixed::one() };
    let flatness = normal.dot(up);
    let avg_z = p0.z.add(p1.z).add(p2.z).div(Fixed::from_int(3));
    facets.push(Facet { a, b, c, normal, ground: ground(avg_z, flatness) });
}

/// The two triangles of every cell of the chunk that is `chunk_size` cells
/// wide and has its origin at `(chunk_x, chunk_y)`, row by row, for each
/// cell first the half at its origin and then the opposite half. A chunk may
/// reach beyond the grid: the surface there has height zero.
pub fn create_mesh(tiles: &PerlinMap, chunk_x: usize, chunk_y: usize, chunk_size: usize) -> (r: Vec<
    Facet,
>)
    requires
        tiles.wf(),
        0 < chunk_size,
        chunk_x + chunk_size <= MAX_WIDTH,
        chunk_y + chunk_size <= MAX_WIDTH,
        chunk_size * chunk_size <= usize::MAX,
    ensures
        r@.len() == 2 * (chunk_size * chunk_size),
        forall|k: int|
            0 <= k < chunk_size * chunk_size ==> {
                &&& #[trigger] r@[2 * k] == tiles@.facet(
                    chunk_x + k % (chunk_size as int),
                    chunk_y + k / (chunk_size as int),
                    chunk_x as int,
                    chunk_y as int,
                    false,
                )
                &&& r@[2 * k + 1] == tiles@.facet(
                    chunk_x + k % (chunk_size as int),
                    chunk_y + k / (chunk_size as int),
                    chunk_x as int,
                    chunk_y as int,
                    true,
                )
            },
{
    let cells: usize = chunk_size * chunk_size;
    let mut facets: Vec<Facet> = Vec::new();
    let mut k: usize = 0;
    while k < cells
        invariant
            tiles.wf(),
            0 < chunk_size,
            chunk_x + chunk_size <= MAX_WIDTH,
            chunk_y + chunk_size <= MAX_WIDTH,
            cells == chunk_size * chunk_size,
            k <= cells,
            facets@.len() == 2 * k,
            forall|j: int|
                0 <= j < k ==> {
                    &&& #[trigger] facets@[2 * j] == tiles@.facet(
                        chunk_x + j % (chunk_size as int),
                        chunk_y + j / (chunk_size as int),
                        chunk_x as int,
                        chunk_y as int,
                        false,
                    )
                    &&& facets@[2 * j + 1] == tiles@.facet(
                        chunk_x + j % (chunk_size as int),
                        chunk_y + j / (chunk_size as int),
                        chunk_x as int,
                        chunk_y as int,
                        true,
                    )
                },
        decreases cells - k,
    {
        proof {
            lemma_row_in_range(k as int, chunk_size as int);
        }
        let x: usize = chunk_x + k % chunk_size;
        let y: usize = chunk_y + k / chunk_size;
        add_triangle(tiles, &mut facets, x, y, chunk_x, chunk_y, false);
        add_triangle(tiles, &mut facets, x, y, chunk_x, chunk_y, true);
        k = k + 1;
    }
    facets
}

/// The meshes of a scene, each known by the number it was given when it was
/// added.
pub struct MeshMgr<M> {
    pub meshes: Vec<M>,
}

impl<M> MeshMgr<M> {
    /// A manager without meshes.
    pub fn new() -> (r: MeshMgr<M>)
        ensures
            r.meshes@.len() == 0,
    {
        MeshMgr { meshes: Vec::new() }
    }

    /// Takes the mesh in and returns its number: the count of meshes added
    /// before it.
    pub fn add_mesh(&mut self, mesh: M) -> (id: usize)
        ensures
            id == old(self).meshes@.len(),
            final(self).meshes@ == old(self).meshes@.push(mesh),
    {
        let id = self.meshes.len();
        self.meshes.push(mesh);
        id
    }

    /// The mesh with the given number.
    pub fn get_mesh(&self, id: usize) -> (r: &M)
        requires
            id < self.meshes@.len(),
        ensures
            *r == self.meshes@[id as int],
    {
        &self.meshes[id]
    }
}

/// The matrix that scales a model and then moves it to its position.
pub open spec fn model_matrix_spec(position: Vec3, scale: Vec3) -> Mat4 {
    let zero = Fixed::spec_zero();
    Mat4 {
        c0: Vec4 { x: scale.x, y: zero, z: zero, w: zero },
        c1: Vec4 { x: zero, y: scale.y, z: zero, w: zero },
        c2: Vec4 { x: zero, y: zero, z: scale.z, w: zero },
        c3: Vec4 { x: position.x, y: position.y, z: position.z, w: Fixed::spec_one() },
    }
}

/// The matrix that scales a model and then moves it to its position.
pub fn get_model_matrix(position: Vec3, scale: Vec3) -> (r: Mat4)
    ensures
        r == model_matrix_spec(position, scale),
{
    let zero = Fixed::zero();
    Mat4 {
        c0: Vec4 { x: scale.x, y: zero, z: zero, w: zero },
        c1: Vec4 { x: zero, y: scale.y, z: zero, w: zero },
        c2: Vec4 { x: zero, y: zero, z: scale.z, w: zero },
        c3: Vec4 { x: position.x, y: position.y, z: position.z, w: Fixed::one() },
    }
}

/// The model matrix takes a point of the model to its place in the world:
/// each coordinate times the scale along its axis, plus the position.
pub proof fn lemma_model_matrix_places(position: Vec3, scale: Vec3, p: Vec3)
    ensures
        model_matrix_spec(position, scale).spec_apply(homogeneous_spec(p)) == (Vec4 {
            x: scale.x.spec_mul(p.x).spec_add(position.x),
            y: scale.y.spec_mul(p.y).spec_add(position.y),
            z: scale.z.spec_mul(p.z).spec_add(position.z),
            w: Fixed::spec_one(),
        }),
{
    lemma_mul_zero(p.x);
    lemma_mul_zero(p.y);
    lemma_mul_zero(p.z);
    lemma_mul_zero(Fixed::spec_one());
    lemma_mul_one(position.x);
    lemma_mul_one(position.y);
    lemma_mul_one(position.z);
    lemma_mul_one(Fixed::spec_one());
}

/// The same indices, each widened to 32 bits.
pub fn vec_u32_from_vec_u16(input: &Vec<u16>) -> (retval: Vec<u32>)
    ensures
        retval@.len() == input@.len(),
        forall|i: int| 0 <= i < input@.len() ==> retval@[i] == input@[i],
{
    let mut retval: Vec<u32> = Vec::new();
    let mut i: usize = 0;
    while i < input.len()
        invariant
            i <= input@.len(),
            retval@.len() == i,
            forall|k: int| 0 <= k < i ==> retval@[k] == input@[k],
        decreases input@.len() - i,
    {
        retval.push(input[i] as u32);
        i = i + 1;
    }
    retval
}

} // verus!
