//! Meshes of tetrahedra: the boundary of a solid, as vertex data and an
//! index list, and the unit hypercube.

use vstd::prelude::*;
use crate::scalar::Scalar;
use crate::vector::{Matrix4, Vector4};

verus! {

/// The encoding of 0.5.
pub const HALF_BITS: u32 = 0x3f00_0000;

/// The encoding of -0.5.
pub const NEG_HALF_BITS: u32 = 0xbf00_0000;

/// The encoding of 1.0.
pub const ONE_BITS: u32 = 0x3f80_0000;

/// The encoding of -1.0.
pub const NEG_ONE_BITS: u32 = 0xbf80_0000;

/// One tetrahedron of a mesh, ready for drawing: column `k` of each matrix
/// belongs to its corner `k`.
#[derive(Clone, Copy, Debug, PartialEq, Eq, Structural)]
pub struct Tetrahedron {
    pub positions: Matrix4,
    pub normals: Matrix4,
    pub colors: Matrix4,
}

/// A mesh of tetrahedra. Every vertex has a position, a normal and a
/// colour; every four entries of the index list name the corners of one
/// tetrahedron, and every index names a vertex.
#[derive(Debug)]
pub struct Mesh4 {
    vertices: Vec<Vector4>,
    normals: Vec<Vector4>,
    colors: Vec<Vector4>,
    indices: Vec<u32>,
    num_tetrahedra: usize,
}

/// Where corner `corner` of cell `cell` of the unit hypercube lies on axis
/// `a`: up (at 0.5) or down (at -0.5).
///
/// The hypercube has eight cubic cells, two across each axis: cell `2a` is
/// the upper and cell `2a + 1` the lower one across axis `a`. The eight
/// corners of a cell are counted in binary over its three free axes, the
/// earliest axis weighing most.
pub open spec fn cube_corner_up(cell: int, corner: int, a: int) -> bool {
    let across = cell / 2;
    if a == across {
        cell % 2 == 0
    } else if a < across {
        (corner / cube_weight(a)) % 2 == 1
    } else {
        (corner / cube_weight(a - 1)) % 2 == 1
    }
}

/// The binary weight of the free axis in place `p` of a cell: 4, 2, 1.
pub open spec fn cube_weight(p: int) -> int {
    if p == 0 {
        4
    } else if p == 1 {
        2
    } else {
        1
    }
}

/// Where corner `corner` of cell `cell` lies on axis `a`: 0.5 or -0.5.
pub open spec fn cube_coordinate(cell: int, corner: int, a: int) -> Scalar {
    if cube_corner_up(cell, corner, a) {
        Scalar { bits: HALF_BITS }
    } else {
        Scalar { bits: NEG_HALF_BITS }
    }
}

/// Vertex `k` of the unit hypercube: corner `k % 8` of cell `k / 8`.
pub open spec fn cube_vertex(k: int) -> Vector4 {
    Vector4 {
        x: cube_coordinate(k / 8, k % 8, 0),
        y: cube_coordinate(k / 8, k % 8, 1),
        z: cube_coordinate(k / 8, k % 8, 2),
        w: cube_coordinate(k / 8, k % 8, 3),
    }
}

/// What the outward unit normal of cell `cell` holds on axis `a`.
pub open spec fn cube_normal_coordinate(cell: int, a: int) -> Scalar {
    if a != cell / 2 {
        Scalar { bits: 0 }
    } else if cell % 2 == 0 {
        Scalar { bits: ONE_BITS }
    } else {
        Scalar { bits: NEG_ONE_BITS }
    }
}

/// The outward unit normal of cell `cell` of the unit hypercube.
pub open spec fn cube_normal(cell: int) -> Vector4 {
    Vector4 {
        x: cube_normal_coordinate(cell, 0),
        y: cube_normal_coordinate(cell, 1),
        z: cube_normal_coordinate(cell, 2),
        w: cube_normal_coordinate(cell, 3),
    }
}

/// The colour of the two cells across axis `axis`, as red, green, blue and
/// opacity: (0, 0.2, 0.3, 1), (0.5, 0, 0.1, 1), (1, 0.8, 0, 1) and
/// (0.3, 0, 0.4, 1).
pub open spec fn cube_color(axis: int) -> Vector4 {
    let one = Scalar { bits: ONE_BITS };
    let none = Scalar { bits: 0 };
    let tenth = Scalar { bits: 0x3dcc_cccd };
    let fifth = Scalar { bits: 0x3e4c_cccd };
    let three_tenths = Scalar { bits: 0x3e99_999a };
    let two_fifths = Scalar { bits: 0x3ecc_cccd };
    let half = Scalar { bits: HALF_BITS };
    let four_fifths = Scalar { bits: 0x3f4c_cccd };
    if axis == 0 {
        Vector4 { x: none, y: fifth, z: three_tenths, w: one }
    } else if axis == 1 {
        Vector4 { x: half, y: none, z: tenth, w: one }
    } else if axis == 2 {
        Vector4 { x: one, y: four_fifths, z: none, w: one }
    } else {
        Vector4 { x: three_tenths, y: none, z: two_fifths, w: one }
    }
}

/// The corners, within a cell, of the six tetrahedra into which a cubic
/// cell is cut: entry `4 t + c` is corner `c` of tetrahedron `t`.
pub open spec fn cell_tetrahedra() -> Seq<int> {
    seq![0, 1, 2, 4, 1, 6, 5, 4, 1, 2, 4, 6, 1, 3, 6, 5, 3, 5, 7, 6, 3, 2, 1, 6]
}

/// Entry `k` of the hypercube's index list.
pub open spec fn cube_index(k: int) -> int {
    8 * (k / 24) + cell_tetrahedra()[k % 24]
}

/// The four columns that the indices from `indices[at]` on pick from
/// `data`.
pub open spec fn gather(data: Seq<Vector4>, indices: Seq<u32>, at: int) -> Matrix4 {
    Matrix4 {
        c0: data[indices[at] as int],
        c1: data[indices[at + 1] as int],
        c2: data[indices[at + 2] as int],
        c3: data[indices[at + 3] as int],
    }
}

fn cube_coordinate_at(cell: usize, corner: usize, a: usize) -> (r: Scalar)
    requires
        cell < 8,
        corner < 8,
        a < 4,
    ensures
        r == cube_coordinate(cell as int, corner as int, a as int),
{
    let across: usize = cell / 2;
    let up = if a == across {
        cell % 2 == 0
    } else {
        let place: usize = if a < across {
            a
        } else {
            a - 1
        };
        let weight: usize = if place == 0 {
            4
        } else if place == 1 {
            2
        } else {
            1
        };
        (corner / weight) % 2 == 1
    };
    if up {
        Scalar::from_bits(HALF_BITS)
    } else {
        Scalar::from_bits(NEG_HALF_BITS)
    }
}

fn cube_normal_at(cell: usize) -> (r: Vector4)
    requires
        cell < 8,
    ensures
        r == cube_normal(cell as int),
{
    let across: usize = cell / 2;
    let unit = if cell % 2 == 0 {
        Scalar::from_bits(ONE_BITS)
    } else {
        Scalar::from_bits(NEG_ONE_BITS)
    };
    let none = Scalar::zero();
    Vector4 {
        x: if across == 0 { unit } else { none },
        y: if across == 1 { unit } else { none },
        z: if across == 2 { unit } else { none },
        w: if across == 3 { unit } else { none },
    }
}

fn cube_color_at(axis: usize) -> (r: Vector4)
    requires
        axis < 4,
    ensures
        r == cube_color(axis as int),
{
    let one = Scalar::from_bits(ONE_BITS);
    let none = Scalar::zero();
    let tenth = Scalar::from_bits(0x3dcc_cccd);
    let fifth = Scalar::from_bits(0x3e4c_cccd);
    let three_tenths = Scalar::from_bits(0x3e99_999a);
    let two_fifths = Scalar::from_bits(0x3ecc_cccd);
    let half = Scalar::from_bits(HALF_BITS);
    let four_fifths = Scalar::from_bits(0x3f4c_cccd);
    if axis == 0 {
        Vector4 { x: none, y: fifth, z: three_tenths, w: one }
    } else if axis == 1 {
        Vector4 { x: half, y: none, z: tenth, w: one }
    } else if axis == 2 {
        Vector4 { x: one, y: four_fifths, z: none, w: one }
    } else {
        Vector4 { x: three_tenths, y: none, z: two_fifths, w: one }
    }
}

impl Mesh4 {
    #[verifier::type_invariant]
    spec fn well_formed(self) -> bool {
        &&& self.normals.len() == self.vertices.len()
        &&& self.colors.len() == self.vertices.len()
        &&& self.indices.len() == 4 * self.num_tetrahedra
        &&& forall|k: int|
            0 <= k < self.indices.len() ==> (#[trigger] self.indices[k]) < self.vertices.len()
    }

    /// The positions of the vertices.
    pub closed spec fn spec_vertices(&self) -> &Vec<Vector4> {
        &self.vertices
    }

    /// The normals of the vertices.
    pub closed spec fn spec_normals(&self) -> &Vec<Vector4> {
        &self.normals
    }

    /// The colours of the vertices.
    pub closed spec fn spec_colors(&self) -> &Vec<Vector4> {
        &self.colors
    }

    /// The index list.
    pub closed spec fn spec_indices(&self) -> &Vec<u32> {
        &self.indices
    }

    /// The number of tetrahedra.
    pub closed spec fn spec_num_tetrahedra(&self) -> usize {
        self.num_tetrahedra
    }

    /// What every mesh keeps: a normal and a colour for each vertex, four
    /// indices for each tetrahedron, and no index without its vertex.
    pub open spec fn consistent(&self) -> bool {
        &&& self.spec_normals()@.len() == self.spec_vertices()@.len()
        &&& self.spec_colors()@.len() == self.spec_vertices()@.len()
        &&& self.spec_indices()@.len() == 4 * self.spec_num_tetrahedra()
        &&& forall|k: int|
            0 <= k < self.spec_indices()@.len() ==> (#[trigger] self.spec_indices()@[k])
                < self.spec_vertices()@.len()
    }

    /// The positions of the vertices.
    #[verifier::when_used_as_spec(spec_vertices)]
    pub fn vertices(&self) -> (r: &Vec<Vector4>)
        ensures
            r == self.spec_vertices(),
            self.consistent(),
    {
        proof {
            use_type_invariant(self);
        }
        &self.vertices
    }

    /// The normals of the vertices.
    #[verifier::when_used_as_spec(spec_normals)]
    pub fn normals(&self) -> (r: &Vec<Vector4>)
        ensures
            r == self.spec_normals(),
            self.consistent(),
    {
        proof {
            use_type_invariant(self);
        }
        &self.normals
    }

    /// The colours of the vertices.
    #[verifier::when_used_as_spec(spec_colors)]
    pub fn colors(&self) -> (r: &Vec<Vector4>)
        ensures
            r == self.spec_colors(),
            self.consistent(),
    {
        proof {
            use_type_invariant(self);
        }
        &self.colors
    }

    /// The index list: four corners for each tetrahedron.
    #[verifier::when_used_as_spec(spec_indices)]
    pub fn indices(&self) -> (r: &Vec<u32>)
        ensures
            r == self.spec_indices(),
            self.consistent(),
    {
        proof {
            use_type_invariant(self);
        }
        &self.indices
    }

    /// The number of tetrahedra.
    #[verifier::when_used_as_spec(spec_num_tetrahedra)]
    pub fn num_tetrahedra(&self) -> (r: usize)
        ensures
            r == self.spec_num_tetrahedra(),
            self.consistent(),
    {
        proof {
            use_type_invariant(self);
        }
        self.num_tetrahedra
    }

    /// The boundary of the unit hypercube centred at the origin: eight
    /// cubic cells of eight vertices each, every cell cut into six
    /// tetrahedra, with the cell's outward normal at each of its vertices
    /// and one colour for each pair of opposite cells.
    pub fn cube() -> (m: Mesh4)
        ensures
            m.vertices()@ == Seq::new(64, |k: int| cube_vertex(k)),
            m.normals()@ == Seq::new(64, |k: int| cube_normal(k / 8)),
            m.colors()@ == Seq::new(64, |k: int| cube_color(k / 16)),
            m.indices()@.len() == 192,
            forall|k: int| 0 <= k < 192 ==> (#[trigger] m.indices()@[k]) == cube_index(k),
            m.num_tetrahedra() == 48,
            m.consistent(),
    {
        let mut vertices: Vec<Vector4> = Vec::new();
        let mut normals: Vec<Vector4> = Vec::new();
        let mut colors: Vec<Vector4> = Vec::new();
        let mut k: usize = 0;
        while k < 64
            invariant
                k <= 64,
                vertices@ == Seq::new(k as nat, |j: int| cube_vertex(j)),
                normals@ == Seq::new(k as nat, |j: int| cube_normal(j / 8)),
                colors@ == Seq::new(k as nat, |j: int| cube_color(j / 16)),
            decreases 64 - k,
        {
            let cell: usize = k / 8;
            let corner: usize = k % 8;
            let vertex = Vector4 {
                x: cube_coordinate_at(cell, corner, 0),
                y: cube_coordinate_at(cell, corner, 1),
                z: cube_coordinate_at(cell, corner, 2),
                w: cube_coordinate_at(cell, corner, 3),
            };
            vertices.push(vertex);
            normals.push(cube_normal_at(cell));
            colors.push(cube_color_at(k / 16));
            k += 1;
            assert(vertices@ =~= Seq::new(k as nat, |j: int| cube_vertex(j)));
            assert(normals@ =~= Seq::new(k as nat, |j: int| cube_normal(j / 8)));
            assert(colors@ =~= Seq::new(k as nat, |j: int| cube_color(j / 16)));
        }
        let corners: [u32; 24] = [
            0, 1, 2, 4, 1, 6, 5, 4, 1, 2, 4, 6, 1, 3, 6, 5, 3, 5, 7, 6, 3, 2, 1, 6,
        ];
        assert(forall|j: int| 0 <= j < 24 ==> (#[trigger] corners@[j]) == cell_tetrahedra()[j]);
        let mut indices: Vec<u32> = Vec::new();
        let mut i: usize = 0;
        while i < 192
            invariant
                i <= 192,
                indices.len() == i,
                forall|j: int| 0 <= j < 24 ==> (#[trigger] corners@[j]) == cell_tetrahedra()[j],
                forall|j: int| 0 <= j < i ==> (#[trigger] indices@[j]) == cube_index(j),
            decreases 192 - i,
        {
            let cell: usize = i / 24;
            let index: u32 = 8 * (cell as u32) + corners[i % 24];
            indices.push(index);
            i += 1;
        }
        let num_tetrahedra: usize = indices.len() / 4;
        assert forall|j: int| 0 <= j < indices.len() implies (#[trigger] indices[j])
            < vertices.len() by {
            assert(indices@[j] == cube_index(j));
            assert(0 <= cell_tetrahedra()[j % 24] <= 7);
        }
        Mesh4 { vertices, normals, colors, indices, num_tetrahedra }
    }

    /// The tetrahedra of the mesh, one record each, in the order of the
    /// index list: tetrahedron `t` holds the positions, normals and colours
    /// of the four vertices that entries `4 t` to `4 t + 3` name.
    pub fn get_buffer_data(&self) -> (r: Vec<Tetrahedron>)
        ensures
            r@.len() == self.num_tetrahedra(),
            forall|t: int|
                0 <= t < r@.len() ==> #[trigger] r@[t] == (Tetrahedron {
                    positions: gather(self.vertices()@, self.indices()@, 4 * t),
                    normals: gather(self.normals()@, self.indices()@, 4 * t),
                    colors: gather(self.colors()@, self.indices()@, 4 * t),
                }),
    {
        proof {
            use_type_invariant(self);
        }
        let mut r: Vec<Tetrahedron> = Vec::new();
        let mut t: usize = 0;
        while t < self.num_tetrahedra
            invariant
                t <= self.num_tetrahedra,
                self.well_formed(),
                r@.len() == t,
                forall|s: int|
                    0 <= s < t ==> #[trigger] r@[s] == (Tetrahedron {
                        positions: gather(self.vertices@, self.indices@, 4 * s),
                        normals: gather(self.normals@, self.indices@, 4 * s),
                        colors: gather(self.colors@, self.indices@, 4 * s),
                    }),
            decreases self.num_tetrahedra - t,
        {
            let at: usize = 4 * t;
            let i0: usize = self.indices[at] as usize;
            let i1: usize = self.indices[at + 1] as usize;
            let i2: usize = self.indices[at + 2] as usize;
            let i3: usize = self.indices[at + 3] as usize;
            r.push(
                Tetrahedron {
                    positions: Matrix4 {
                        c0: self.vertices[i0],
                        c1: self.vertices[i1],
                        c2: self.vertices[i2],
                        c3: self.vertices[i3],
                    },
                    normals: Matrix4 {
                        c0: self.normals[i0],
                        c1: self.normals[i1],
                        c2: self.normals[i2],
                        c3: self.normals[i3],
                    },
                    colors: Matrix4 {
                        c0: self.colors[i0],
                        c1: self.colors[i1],
                        c2: self.colors[i2],
                        c3: self.colors[i3],
                    },
                },
            );
            t += 1;
        }
        r
    }
}

} // verus!
