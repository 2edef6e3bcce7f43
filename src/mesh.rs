use vstd::prelude::*;
use crate::block::BlockType;
use crate::chunk::{Chunk, TerrainError};

verus! {

/// The number of vertices that a 16-bit index can address.
pub const MAX_VERTICES: usize = 65536;

/// The six faces of a cube, named from the viewer: front is `-z`, back is
/// `+z`, top is `+y`, bottom is `-y`, left is `-x`, right is `+x`.
#[derive(Clone, Copy, Debug, PartialEq, Eq, Structural)]
pub enum Faces {
    Front,
    Back,
    Top,
    Bottom,
    Left,
    Right,
}

/// One corner of one block.
///
/// Each emitted block re-emits its eight corners; `corner` numbers them as
/// in `corner_sign`. `shade` is the number of vertices emitted before the
/// block, from which a renderer derives a debug colour.
#[derive(Clone, Copy, Debug, PartialEq, Eq, Structural)]
pub struct Vertex {
    pub x: usize,
    pub y: usize,
    pub z: usize,
    pub corner: u8,
    pub shade: usize,
}

/// The triangles of a grid: every index is below `vertices.len()`.
pub struct Mesh {
    pub vertices: Vec<Vertex>,
    pub indices: Vec<u16>,
}

/// The side of the block centre on which each corner lies, per axis:
/// corners 0 to 3 lie on the front (`-z`) side, 4 to 7 on the back.
pub open spec fn corner_sign(corner: int) -> (int, int, int) {
    if corner == 0 {
        (-1, -1, -1)
    } else if corner == 1 {
        (1, -1, -1)
    } else if corner == 2 {
        (1, 1, -1)
    } else if corner == 3 {
        (-1, 1, -1)
    } else if corner == 4 {
        (1, -1, 1)
    } else if corner == 5 {
        (-1, -1, 1)
    } else if corner == 6 {
        (-1, 1, 1)
    } else {
        (1, 1, 1)
    }
}

impl Vertex {
    /// Where the vertex lies, in units of half a block's extent: the block
    /// centre is at twice its cell coordinates, and the corner one unit off
    /// it on each axis.
    pub open spec fn position(self) -> (int, int, int) {
        let s = corner_sign(self.corner as int);
        (2 * self.x + s.0, 2 * self.y + s.1, 2 * self.z + s.2)
    }

    /// The vertex's position in half-extent units (see `position`).
    pub fn half_extent_position(&self) -> (r: (i128, i128, i128))
        requires
            self.corner < 8,
        ensures
            (r.0 as int, r.1 as int, r.2 as int) == self.position(),
    {
        let sx: i128 = if self.corner == 1 || self.corner == 2 || self.corner == 4 || self.corner == 7 {
            1
        } else {
            -1
        };
        let sy: i128 = if self.corner == 2 || self.corner == 3 || self.corner == 6 || self.corner == 7 {
            1
        } else {
            -1
        };
        let sz: i128 = if self.corner < 4 {
            -1
        } else {
            1
        };
        (2 * (self.x as i128) + sx, 2 * (self.y as i128) + sy, 2 * (self.z as i128) + sz)
    }
}

/// The two triangles of a face, as corners of the block's local layout,
/// wound clockwise seen from outside.
pub open spec fn face_corners(f: Faces) -> Seq<int> {
    match f {
        Faces::Front => seq![0, 1, 3, 3, 1, 2],
        Faces::Back => seq![4, 5, 7, 7, 5, 6],
        Faces::Top => seq![3, 2, 6, 6, 2, 7],
        Faces::Bottom => seq![5, 4, 0, 0, 4, 1],
        Faces::Left => seq![5, 0, 6, 6, 0, 3],
        Faces::Right => seq![1, 4, 2, 2, 4, 7],
    }
}

/// The cell that a face of the block at `(x, y, z)` looks onto.
pub open spec fn neighbor(x: int, y: int, z: int, f: Faces) -> (int, int, int) {
    match f {
        Faces::Front => (x, y, z - 1),
        Faces::Back => (x, y, z + 1),
        Faces::Top => (x, y + 1, z),
        Faces::Bottom => (x, y - 1, z),
        Faces::Left => (x - 1, y, z),
        Faces::Right => (x + 1, y, z),
    }
}

/// A face is shown unless the cell it looks onto exists and is solid.
pub open spec fn face_shown(c: Chunk, x: int, y: int, z: int, f: Faces) -> bool {
    let n = neighbor(x, y, z, f);
    !c.solid_at(n.0, n.1, n.2)
}

pub open spec fn shown_if(c: Chunk, x: int, y: int, z: int, f: Faces) -> Seq<Faces> {
    if face_shown(c, x, y, z, f) {
        seq![f]
    } else {
        seq![]
    }
}

/// The faces of the block at `(x, y, z)` that are shown, in emission order:
/// back, front, right, left, top, bottom.
pub open spec fn shown_faces(c: Chunk, x: int, y: int, z: int) -> Seq<Faces> {
    shown_if(c, x, y, z, Faces::Back) + shown_if(c, x, y, z, Faces::Front) + shown_if(
        c,
        x,
        y,
        z,
        Faces::Right,
    ) + shown_if(c, x, y, z, Faces::Left) + shown_if(c, x, y, z, Faces::Top) + shown_if(
        c,
        x,
        y,
        z,
        Faces::Bottom,
    )
}

/// The six indices of a face of a block whose corners start at `offset`.
pub open spec fn face_indices(f: Faces, offset: int) -> Seq<int> {
    face_corners(f).map_values(|i: int| i + offset)
}

/// The indices of the given faces of one block, face after face.
pub open spec fn faces_indices(faces: Seq<Faces>, offset: int) -> Seq<int>
    decreases faces.len(),
{
    if faces.len() == 0 {
        seq![]
    } else {
        faces_indices(faces.drop_last(), offset) + face_indices(faces.last(), offset)
    }
}

/// The eight corners of the block at `(x, y, z)`, whose first vertex goes at `offset`.
pub open spec fn cube_vertices(x: usize, y: usize, z: usize, offset: nat) -> Seq<Vertex> {
    Seq::new(8, |k: int| Vertex { x, y, z, corner: k as u8, shade: offset as usize })
}

/// Index values as integers.
pub open spec fn as_ints(s: Seq<u16>) -> Seq<int> {
    s.map_values(|v: u16| v as int)
}

/// The indices of one face of a block whose corners start at `idx_offset`.
pub fn add_face_indices(face: &Faces, idx_offset: usize) -> (r: Vec<u16>)
    requires
        idx_offset + 8 <= MAX_VERTICES,
    ensures
        as_ints(r@) == face_indices(*face, idx_offset as int),
{
    let o = idx_offset as u16;
    let r = match face {
        Faces::Front => vec![o, o + 1, o + 3, o + 3, o + 1, o + 2],
        Faces::Back => vec![o + 4, o + 5, o + 7, o + 7, o + 5, o + 6],
        Faces::Top => vec![o + 3, o + 2, o + 6, o + 6, o + 2, o + 7],
        Faces::Bottom => vec![o + 5, o + 4, o, o, o + 4, o + 1],
        Faces::Left => vec![o + 5, o, o + 6, o + 6, o, o + 3],
        Faces::Right => vec![o + 1, o + 4, o + 2, o + 2, o + 4, o + 7],
    };
    assert(as_ints(r@) =~= face_indices(*face, idx_offset as int));
    r
}

proof fn lemma_as_ints_append(a: Seq<u16>, b: Seq<u16>)
    ensures
        as_ints(a + b) == as_ints(a) + as_ints(b),
{
    assert(as_ints(a + b) =~= as_ints(a) + as_ints(b));
}

proof fn lemma_faces_indices_append(faces: Seq<Faces>, more: Seq<Faces>, offset: int)
    ensures
        faces_indices(faces + more, offset) == faces_indices(faces, offset) + faces_indices(
            more,
            offset,
        ),
    decreases more.len(),
{
    if more.len() == 0 {
        assert(faces + more =~= faces);
        assert(faces_indices(faces, offset) + faces_indices(more, offset) =~= faces_indices(
            faces,
            offset,
        ));
    } else {
        assert((faces + more).drop_last() =~= faces + more.drop_last());
        lemma_faces_indices_append(faces, more.drop_last(), offset);
        assert(faces_indices(faces + more, offset) =~= faces_indices(faces, offset)
            + faces_indices(more, offset));
    }
}

impl Chunk {
    /// Builds the mesh of the grid (see `mesh_of`), or fails with
    /// `MeshOverflow`, and no partial mesh, when it would need more than
    /// `MAX_VERTICES` vertices.
    pub fn create_mesh(&self) -> (r: Result<Mesh, TerrainError>)
        requires
            self.wf(),
        ensures
            r is Ok <==> mesh_of(*self).0.len() <= MAX_VERTICES,
            r matches Err(e) ==> e == TerrainError::MeshOverflow,
            r matches Ok(m) ==> m.vertices@ == mesh_of(*self).0 && as_ints(m.indices@) == mesh_of(
                *self,
            ).1,
            r matches Ok(m) ==> forall|k: int|
                0 <= k < m.indices@.len() ==> (#[trigger] m.indices@[k] as int) < m.vertices@.len(),
    {
        let mut vertices: Vec<Vertex> = Vec::new();
        let mut indices: Vec<u16> = Vec::new();
        let ghost c = *self;
        let mut y: usize = 0;
        while y < self.height
            invariant
                self.wf(),
                c == *self,
                y <= self.height,
                vertices@ == mesh_before(c, y as nat, 0, 0).0,
                as_ints(indices@) == mesh_before(c, y as nat, 0, 0).1,
                vertices@.len() <= MAX_VERTICES,
            decreases self.height - y,
        {
            let mut x: usize = 0;
            while x < self.width
                invariant
                    self.wf(),
                    c == *self,
                    y < self.height,
                    x <= self.width,
                    vertices@ == mesh_before(c, y as nat, x as nat, 0).0,
                    as_ints(indices@) == mesh_before(c, y as nat, x as nat, 0).1,
                    vertices@.len() <= MAX_VERTICES,
                decreases self.width - x,
            {
                let mut z: usize = 0;
                while z < self.depth
                    invariant
                        self.wf(),
                        c == *self,
                        y < self.height,
                        x < self.width,
                        z <= self.depth,
                        vertices@ == mesh_before(c, y as nat, x as nat, z as nat).0,
                        as_ints(indices@) == mesh_before(c, y as nat, x as nat, z as nat).1,
                        vertices@.len() <= MAX_VERTICES,
                    decreases self.depth - z,
                {
                    let ghost s = mesh_before(c, y as nat, x as nat, z as nat);
                    assert(mesh_before(c, y as nat, x as nat, (z + 1) as nat) == emit_block(
                        s,
                        c,
                        x as nat,
                        y as nat,
                        z as nat,
                    ));
                    if self.blocks[y][z][x].is_solid() {
                        if vertices.len() > MAX_VERTICES - 8 {
                            if self.has_visible_face(x, y, z) {
                                proof {
                                    lemma_monotone(c, y as nat, x as nat, (z + 1) as nat);
                                }
                                return Err(TerrainError::MeshOverflow);
                            }
                        } else {
                            let (mut v_cube, mut i_cube) = self.create_cube(vertices.len(), x, y, z);
                            proof {
                                lemma_as_ints_append(indices@, i_cube@);
                            }
                            vertices.append(&mut v_cube);
                            indices.append(&mut i_cube);
                        }
                    }
                    z = z + 1;
                }
                assert(mesh_before(c, y as nat, (x + 1) as nat, 0) == mesh_before(
                    c,
                    y as nat,
                    x as nat,
                    z as nat,
                ));
                x = x + 1;
            }
            assert(mesh_before(c, (y + 1) as nat, 0, 0) == mesh_before(c, y as nat, x as nat, 0));
            y = y + 1;
        }
        proof {
            lemma_index_validity(c);
            assert forall|k: int| 0 <= k < indices@.len() implies (#[trigger] indices@[k] as int)
                < vertices@.len() by {
                assert(as_ints(indices@)[k] == indices@[k] as int);
                assert(mesh_of(c).1[k] == as_ints(indices@)[k]);
            }
        }
        Ok(Mesh { vertices, indices })
    }

    /// Whether the block at `(x, y, z)` shows any face.
    pub fn has_visible_face(&self, x: usize, y: usize, z: usize) -> (r: bool)
        requires
            self.wf(),
            self.in_bounds(x as int, y as int, z as int),
        ensures
            r == (shown_faces(*self, x as int, y as int, z as int).len() > 0),
    {
        self.face_visible(x, y, z, Faces::Back) || self.face_visible(x, y, z, Faces::Front)
            || self.face_visible(x, y, z, Faces::Right) || self.face_visible(x, y, z, Faces::Left)
            || self.face_visible(x, y, z, Faces::Top) || self.face_visible(x, y, z, Faces::Bottom)
    }

    /// Whether the face `face` of the block at `(x, y, z)` is shown: it is,
    /// unless the cell it looks onto exists and is solid.
    pub fn face_visible(&self, x: usize, y: usize, z: usize, face: Faces) -> (r: bool)
        requires
            self.wf(),
            self.in_bounds(x as int, y as int, z as int),
        ensures
            r == face_shown(*self, x as int, y as int, z as int, face),
    {
        match face {
            Faces::Front => z == 0 || !self.blocks[y][z - 1][x].is_solid(),
            Faces::Back => z + 1 == self.depth || !self.blocks[y][z + 1][x].is_solid(),
            Faces::Top => y + 1 == self.height || !self.blocks[y + 1][z][x].is_solid(),
            Faces::Bottom => y == 0 || !self.blocks[y - 1][z][x].is_solid(),
            Faces::Left => x == 0 || !self.blocks[y][z][x - 1].is_solid(),
            Faces::Right => x + 1 == self.width || !self.blocks[y][z][x + 1].is_solid(),
        }
    }

    fn push_face_if_shown(
        &self,
        indices: &mut Vec<u16>,
        face: Faces,
        idx_offset: usize,
        x: usize,
        y: usize,
        z: usize,
        faces: Ghost<Seq<Faces>>,
    )
        requires
            self.wf(),
            self.in_bounds(x as int, y as int, z as int),
            idx_offset + 8 <= MAX_VERTICES,
            as_ints(old(indices)@) == faces_indices(faces@, idx_offset as int),
        ensures
            as_ints(final(indices)@) == faces_indices(
                faces@ + shown_if(*self, x as int, y as int, z as int, face),
                idx_offset as int,
            ),
    {
        let ghost shown = shown_if(*self, x as int, y as int, z as int, face);
        proof {
            lemma_faces_indices_append(faces@, shown, idx_offset as int);
        }
        if self.face_visible(x, y, z, face) {
            let mut f = add_face_indices(&face, idx_offset);
            proof {
                lemma_as_ints_append(indices@, f@);
                assert(seq![face].drop_last() =~= Seq::<Faces>::empty());
                assert(faces_indices(Seq::<Faces>::empty(), idx_offset as int) =~= Seq::<
                    int,
                >::empty());
                assert(seq![face].last() == face);
                assert(faces_indices(seq![face], idx_offset as int) =~= face_indices(
                    face,
                    idx_offset as int,
                ));
            }
            indices.append(&mut f);
        } else {
            assert(faces_indices(shown, idx_offset as int) =~= Seq::<int>::empty());
            assert(as_ints(indices@) =~= faces_indices(faces@, idx_offset as int)
                + faces_indices(shown, idx_offset as int));
        }
    }

    /// The geometry of the block at `(x, y, z)`: its eight corners and the
    /// triangles of its shown faces, indexed from `idx_offset`; nothing at
    /// all when no face is shown.
    pub fn create_cube(&self, idx_offset: usize, x: usize, y: usize, z: usize) -> (r: (
        Vec<Vertex>,
        Vec<u16>,
    ))
        requires
            self.wf(),
            self.in_bounds(x as int, y as int, z as int),
            idx_offset + 8 <= MAX_VERTICES,
        ensures
            shown_faces(*self, x as int, y as int, z as int).len() > 0 ==> r.0@ == cube_vertices(
                x,
                y,
                z,
                idx_offset as nat,
            ) && as_ints(r.1@) == faces_indices(
                shown_faces(*self, x as int, y as int, z as int),
                idx_offset as int,
            ),
            shown_faces(*self, x as int, y as int, z as int).len() == 0 ==> r.0@.len() == 0
                && r.1@.len() == 0,
    {
        let ghost (xi, yi, zi) = (x as int, y as int, z as int);
        let ghost off = idx_offset as int;
        let mut i_cube: Vec<u16> = Vec::new();
        let ghost mut faces: Seq<Faces> = Seq::empty();
        assert(as_ints(i_cube@) =~= faces_indices(faces, off));
        self.push_face_if_shown(&mut i_cube, Faces::Back, idx_offset, x, y, z, Ghost(faces));
        proof {
            faces = faces + shown_if(*self, xi, yi, zi, Faces::Back);
        }
        self.push_face_if_shown(&mut i_cube, Faces::Front, idx_offset, x, y, z, Ghost(faces));
        proof {
            faces = faces + shown_if(*self, xi, yi, zi, Faces::Front);
        }
        self.push_face_if_shown(&mut i_cube, Faces::Right, idx_offset, x, y, z, Ghost(faces));
        proof {
            faces = faces + shown_if(*self, xi, yi, zi, Faces::Right);
        }
        self.push_face_if_shown(&mut i_cube, Faces::Left, idx_offset, x, y, z, Ghost(faces));
        proof {
            faces = faces + shown_if(*self, xi, yi, zi, Faces::Left);
        }
        self.push_face_if_shown(&mut i_cube, Faces::Top, idx_offset, x, y, z, Ghost(faces));
        proof {
            faces = faces + shown_if(*self, xi, yi, zi, Faces::Top);
        }
        self.push_face_if_shown(&mut i_cube, Faces::Bottom, idx_offset, x, y, z, Ghost(faces));
        proof {
            faces = faces + shown_if(*self, xi, yi, zi, Faces::Bottom);
            assert(faces =~= shown_faces(*self, xi, yi, zi));
            lemma_indices_length(faces, off);
        }
        if i_cube.len() == 0 {
            return (Vec::new(), Vec::new());
        }
        let v_cube = vec![
            Vertex { x, y, z, corner: 0, shade: idx_offset },
            Vertex { x, y, z, corner: 1, shade: idx_offset },
            Vertex { x, y, z, corner: 2, shade: idx_offset },
            Vertex { x, y, z, corner: 3, shade: idx_offset },
            Vertex { x, y, z, corner: 4, shade: idx_offset },
            Vertex { x, y, z, corner: 5, shade: idx_offset },
            Vertex { x, y, z, corner: 6, shade: idx_offset },
            Vertex { x, y, z, corner: 7, shade: idx_offset },
        ];
        assert(v_cube@ =~= cube_vertices(x, y, z, idx_offset as nat));
        (v_cube, i_cube)
    }
}

/// What meshing the block at `(x, y, z)` appends to the partial mesh `s`:
/// a solid block with a shown face adds its eight corners and the triangles
/// of its shown faces, indexed from the vertices already there; any other
/// block adds nothing.
pub open spec fn emit_block(s: (Seq<Vertex>, Seq<int>), c: Chunk, x: nat, y: nat, z: nat) -> (
    Seq<Vertex>,
    Seq<int>,
) {
    let faces = shown_faces(c, x as int, y as int, z as int);
    if c.solid_at(x as int, y as int, z as int) && faces.len() > 0 {
        (
            s.0 + cube_vertices(x as usize, y as usize, z as usize, s.0.len()),
            s.1 + faces_indices(faces, s.0.len() as int),
        )
    } else {
        s
    }
}

/// The mesh of all blocks before `(x, y, z)` in traversal order: by layer
/// `y`, then by `x`, then by `z`.
pub open spec fn mesh_before(c: Chunk, y: nat, x: nat, z: nat) -> (Seq<Vertex>, Seq<int>)
    decreases y, x, z,
{
    if z > 0 {
        emit_block(mesh_before(c, y, x, (z - 1) as nat), c, x, y, (z - 1) as nat)
    } else if x > 0 {
        mesh_before(c, y, (x - 1) as nat, c.depth as nat)
    } else if y > 0 {
        mesh_before(c, (y - 1) as nat, c.width as nat, 0)
    } else {
        (seq![], seq![])
    }
}

/// The mesh of the whole grid: vertices, and index values as integers.
pub open spec fn mesh_of(c: Chunk) -> (Seq<Vertex>, Seq<int>) {
    mesh_before(c, c.height as nat, 0, 0)
}

/// The number of faces shown by the blocks before `(x, y, z)` in traversal order.
pub open spec fn faces_before(c: Chunk, y: nat, x: nat, z: nat) -> nat
    decreases y, x, z,
{
    if z > 0 {
        let zp = (z - 1) as nat;
        faces_before(c, y, x, zp) + if c.solid_at(x as int, y as int, zp as int) {
            shown_faces(c, x as int, y as int, zp as int).len()
        } else {
            0
        }
    } else if x > 0 {
        faces_before(c, y, (x - 1) as nat, c.depth as nat)
    } else if y > 0 {
        faces_before(c, (y - 1) as nat, c.width as nat, 0)
    } else {
        0
    }
}

/// The number of faces shown in the whole grid.
pub open spec fn face_count(c: Chunk) -> nat {
    faces_before(c, c.height as nat, 0, 0)
}

/// A cursor of the traversal: a cell, or the end of a row or of a layer.
pub open spec fn cursor(c: Chunk, y: nat, x: nat, z: nat) -> bool {
    &&& y <= c.height
    &&& x <= c.width
    &&& z <= c.depth
    &&& y == c.height ==> x == 0 && z == 0
    &&& x == c.width ==> z == 0
}

/// Meshing only ever appends: the vertices of a partial mesh are never more
/// than those of the whole.
proof fn lemma_monotone(c: Chunk, y: nat, x: nat, z: nat)
    requires
        cursor(c, y, x, z),
    ensures
        mesh_before(c, y, x, z).0.len() <= mesh_of(c).0.len(),
    decreases c.height - y, c.width - x, c.depth - z,
{
    if y == c.height {
    } else if x == c.width {
        assert(mesh_before(c, y + 1, 0, 0) == mesh_before(c, y, x, z));
        lemma_monotone(c, y + 1, 0, 0);
    } else if z == c.depth {
        assert(mesh_before(c, y, x + 1, 0) == mesh_before(c, y, x, z));
        lemma_monotone(c, y, x + 1, 0);
    } else {
        assert(mesh_before(c, y, x, z + 1) == emit_block(mesh_before(c, y, x, z), c, x, y, z));
        lemma_monotone(c, y, x, z + 1);
    }
}

proof fn lemma_face_corners_range(f: Faces)
    ensures
        face_corners(f).len() == 6,
        forall|j: int| 0 <= j < 6 ==> 0 <= #[trigger] face_corners(f)[j] < 8,
{
    let s = face_corners(f);
    assert forall|j: int| 0 <= j < 6 implies 0 <= #[trigger] s[j] < 8 by {
        if j == 0 {
        } else if j == 1 {
        } else if j == 2 {
        } else if j == 3 {
        } else if j == 4 {
        } else {
        }
    }
}

proof fn lemma_faces_indices_range(faces: Seq<Faces>, offset: int)
    ensures
        forall|k: int|
            0 <= k < faces_indices(faces, offset).len() ==> offset <= #[trigger] faces_indices(
                faces,
                offset,
            )[k] < offset + 8,
    decreases faces.len(),
{
    if faces.len() > 0 {
        let pre = faces.drop_last();
        let f = faces.last();
        lemma_faces_indices_range(pre, offset);
        lemma_face_corners_range(f);
        let all = faces_indices(faces, offset);
        let head = faces_indices(pre, offset);
        assert forall|k: int| 0 <= k < all.len() implies offset <= #[trigger] all[k] < offset + 8 by {
            if k >= head.len() {
                assert(all[k] == face_indices(f, offset)[k - head.len()]);
                assert(face_indices(f, offset)[k - head.len()] == face_corners(f)[k - head.len()]
                    + offset);
            } else {
                assert(all[k] == head[k]);
            }
        }
    }
}

/// Every index of a partial mesh names one of its vertices.
proof fn lemma_indices_below(c: Chunk, y: nat, x: nat, z: nat)
    ensures
        forall|k: int|
            0 <= k < mesh_before(c, y, x, z).1.len() ==> 0 <= #[trigger] mesh_before(
                c,
                y,
                x,
                z,
            ).1[k] < mesh_before(c, y, x, z).0.len(),
    decreases y, x, z,
{
    if z > 0 {
        let zp = (z - 1) as nat;
        lemma_indices_below(c, y, x, zp);
        let s = mesh_before(c, y, x, zp);
        let faces = shown_faces(c, x as int, y as int, zp as int);
        lemma_faces_indices_range(faces, s.0.len() as int);
        let t = mesh_before(c, y, x, z);
        assert(t == emit_block(s, c, x, y, zp));
        assert forall|k: int| 0 <= k < t.1.len() implies 0 <= #[trigger] t.1[k] < t.0.len() by {
            if c.solid_at(x as int, y as int, zp as int) && faces.len() > 0 {
                if k >= s.1.len() {
                    assert(t.1[k] == faces_indices(faces, s.0.len() as int)[k - s.1.len()]);
                } else {
                    assert(t.1[k] == s.1[k]);
                }
            }
        }
    } else if x > 0 {
        lemma_indices_below(c, y, (x - 1) as nat, c.depth as nat);
        assert(mesh_before(c, y, x, z) == mesh_before(c, y, (x - 1) as nat, c.depth as nat));
    } else if y > 0 {
        lemma_indices_below(c, (y - 1) as nat, c.width as nat, 0);
        assert(mesh_before(c, y, x, z) == mesh_before(c, (y - 1) as nat, c.width as nat, 0));
    }
}

proof fn lemma_concat_contains(a: Seq<Faces>, b: Seq<Faces>, e: Faces)
    ensures
        (a + b).contains(e) <==> a.contains(e) || b.contains(e),
{
    if a.contains(e) {
        let i = choose|i: int| 0 <= i < a.len() && a[i] == e;
        assert((a + b)[i] == e);
    }
    if b.contains(e) {
        let i = choose|i: int| 0 <= i < b.len() && b[i] == e;
        assert((a + b)[a.len() + i] == e);
    }
    if (a + b).contains(e) {
        let i = choose|i: int| 0 <= i < (a + b).len() && (a + b)[i] == e;
        if i < a.len() {
            assert(a[i] == e);
        } else {
            assert(b[i - a.len()] == e);
        }
    }
}

proof fn lemma_shown_if_contains(c: Chunk, x: int, y: int, z: int, g: Faces, f: Faces)
    ensures
        shown_if(c, x, y, z, g).contains(f) <==> g == f && face_shown(c, x, y, z, g),
{
    if face_shown(c, x, y, z, g) && g == f {
        assert(shown_if(c, x, y, z, g)[0] == f);
    }
}

/// Face visibility: a face of a solid block is emitted exactly when the cell
/// it looks onto lies outside the grid or holds air.
pub proof fn lemma_face_visibility(c: Chunk, x: int, y: int, z: int, f: Faces)
    requires
        c.wf(),
        c.solid_at(x, y, z),
    ensures
        shown_faces(c, x, y, z).contains(f) <==> ({
            let n = neighbor(x, y, z, f);
            !c.in_bounds(n.0, n.1, n.2) || c.cell(n.0, n.1, n.2).block_type == BlockType::Air
        }),
{
    let b = shown_if(c, x, y, z, Faces::Back);
    let fr = shown_if(c, x, y, z, Faces::Front);
    let r = shown_if(c, x, y, z, Faces::Right);
    let l = shown_if(c, x, y, z, Faces::Left);
    let t = shown_if(c, x, y, z, Faces::Top);
    let bo = shown_if(c, x, y, z, Faces::Bottom);
    lemma_concat_contains(b, fr, f);
    lemma_concat_contains(b + fr, r, f);
    lemma_concat_contains(b + fr + r, l, f);
    lemma_concat_contains(b + fr + r + l, t, f);
    lemma_concat_contains(b + fr + r + l + t, bo, f);
    lemma_shown_if_contains(c, x, y, z, Faces::Back, f);
    lemma_shown_if_contains(c, x, y, z, Faces::Front, f);
    lemma_shown_if_contains(c, x, y, z, Faces::Right, f);
    lemma_shown_if_contains(c, x, y, z, Faces::Left, f);
    lemma_shown_if_contains(c, x, y, z, Faces::Top, f);
    lemma_shown_if_contains(c, x, y, z, Faces::Bottom, f);
}

/// No leaks: a block whose six neighbours are all solid adds no vertex and
/// no index to the mesh.
pub proof fn lemma_enclosed_block_adds_nothing(c: Chunk, x: nat, y: nat, z: nat)
    requires
        c.wf(),
        c.in_bounds(x as int, y as int, z as int),
        c.solid_at(x - 1, y as int, z as int),
        c.solid_at(x as int + 1, y as int, z as int),
        c.solid_at(x as int, y - 1, z as int),
        c.solid_at(x as int, y as int + 1, z as int),
        c.solid_at(x as int, y as int, z - 1),
        c.solid_at(x as int, y as int, z as int + 1),
    ensures
        mesh_before(c, y, x, z + 1) == mesh_before(c, y, x, z),
{
    assert(shown_faces(c, x as int, y as int, z as int).len() == 0);
    assert(mesh_before(c, y, x, z + 1) == emit_block(mesh_before(c, y, x, z), c, x, y, z));
}

proof fn lemma_index_count(c: Chunk, y: nat, x: nat, z: nat)
    ensures
        mesh_before(c, y, x, z).1.len() == 6 * faces_before(c, y, x, z),
    decreases y, x, z,
{
    if z > 0 {
        let zp = (z - 1) as nat;
        lemma_index_count(c, y, x, zp);
        let s = mesh_before(c, y, x, zp);
        lemma_indices_length(shown_faces(c, x as int, y as int, zp as int), s.0.len() as int);
        assert(mesh_before(c, y, x, z) == emit_block(s, c, x, y, zp));
    } else if x > 0 {
        lemma_index_count(c, y, (x - 1) as nat, c.depth as nat);
        assert(mesh_before(c, y, x, z) == mesh_before(c, y, (x - 1) as nat, c.depth as nat));
    } else if y > 0 {
        lemma_index_count(c, (y - 1) as nat, c.width as nat, 0);
        assert(mesh_before(c, y, x, z) == mesh_before(c, (y - 1) as nat, c.width as nat, 0));
    }
}

/// Triangle count: the mesh holds six indices, two triangles, for each
/// shown face, so its index count is a multiple of three.
pub proof fn lemma_triangle_count(c: Chunk)
    ensures
        mesh_of(c).1.len() == 6 * face_count(c),
        mesh_of(c).1.len() % 3 == 0,
{
    lemma_index_count(c, c.height as nat, 0, 0);
}

/// Index validity: every index of the mesh names one of its vertices.
pub proof fn lemma_index_validity(c: Chunk)
    ensures
        forall|k: int|
            0 <= k < mesh_of(c).1.len() ==> 0 <= #[trigger] mesh_of(c).1[k] < mesh_of(c).0.len(),
{
    lemma_indices_below(c, c.height as nat, 0, 0);
}

/// Each face contributes six indices.
pub proof fn lemma_indices_length(faces: Seq<Faces>, offset: int)
    ensures
        faces_indices(faces, offset).len() == 6 * faces.len(),
    decreases faces.len(),
{
    if faces.len() > 0 {
        lemma_indices_length(faces.drop_last(), offset);
    }
}

} // verus!
