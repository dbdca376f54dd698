//! The playfield: a grid of pieces, some of them holes, and the faces of its mesh.
use vstd::prelude::*;

verus! {

/// The shortest row of a grid.
pub open spec fn min_row_len<T>(field: Seq<&[T]>, k: nat) -> int
    decreases k,
{
    if k <= 1 {
        field[0]@.len() as int
    } else {
        let m = min_row_len(field, (k - 1) as nat);
        let l = field[k - 1]@.len() as int;
        if l < m { l } else { m }
    }
}

/// The width (the shortest row) and the height (the number of rows) of a field.
pub fn dimensions<T>(field: &[&[T]]) -> (r: (usize, usize))
    requires
        field@.len() > 0,
    ensures
        r.0 == min_row_len(field@, field@.len()),
        r.1 == field@.len(),
        forall|i: int| 0 <= i < field@.len() ==> r.0 <= #[trigger] field@[i]@.len(),
        exists|i: int| 0 <= i < field@.len() && r.0 == #[trigger] field@[i]@.len(),
{
    let mut width = field[0].len();
    let mut k: usize = 1;
    while k < field.len()
        invariant
            1 <= k <= field@.len(),
            width == min_row_len(field@, k as nat),
            forall|i: int| 0 <= i < k ==> width <= #[trigger] field@[i]@.len(),
            exists|i: int| 0 <= i < k && width == #[trigger] field@[i]@.len(),
        decreases field@.len() - k,
    {
        let l = field[k].len();
        if l < width {
            width = l;
        }
        k = k + 1;
    }
    (width, field.len())
}

/// A face of a piece's block.
#[derive(Debug, Copy, Clone, PartialEq, Eq, Structural)]
pub enum Face {
    /// The floor, facing up.
    Top,
    /// The underside, facing down.
    Bottom,
    /// The wall towards smaller x.
    Left,
    /// The wall towards larger x.
    Right,
    /// The wall towards smaller z.
    Front,
    /// The wall towards larger z.
    Back,
}

/// A face of the piece at column `x` and row `z`.
#[derive(Debug, Copy, Clone, PartialEq, Eq, Structural)]
pub struct Quad {
    pub face: Face,
    pub x: usize,
    pub z: usize,
}

/// The faces of the piece at (`x`, `z`) of a `w` by `h` grid of holes: none for a hole; else its
/// floor and underside, and a wall on each side that is the grid's edge or a hole.
pub open spec fn cell_quads(holes: Seq<&[bool]>, w: int, h: int, z: int, x: int) -> Seq<Quad> {
    if holes[z]@[x] {
        seq![]
    } else {
        seq![Quad { face: Face::Top, x: x as usize, z: z as usize }, Quad { face: Face::Bottom, x: x as usize, z: z as usize }]
            + (if x == 0 || holes[z]@[x - 1] { seq![Quad { face: Face::Left, x: x as usize, z: z as usize }] } else { seq![] })
            + (if x == w - 1 || holes[z]@[x + 1] { seq![Quad { face: Face::Right, x: x as usize, z: z as usize }] } else { seq![] })
            + (if z == 0 || holes[z - 1]@[x] { seq![Quad { face: Face::Front, x: x as usize, z: z as usize }] } else { seq![] })
            + (if z == h - 1 || holes[z + 1]@[x] { seq![Quad { face: Face::Back, x: x as usize, z: z as usize }] } else { seq![] })
    }
}

/// The faces of the first `k` pieces of row `z`.
pub open spec fn row_quads(holes: Seq<&[bool]>, w: int, h: int, z: int, k: nat) -> Seq<Quad>
    decreases k,
{
    if k == 0 {
        seq![]
    } else {
        row_quads(holes, w, h, z, (k - 1) as nat) + cell_quads(holes, w, h, z, k - 1)
    }
}

/// The faces of the first `k` rows, row by row.
pub open spec fn grid_quads(holes: Seq<&[bool]>, w: int, h: int, k: nat) -> Seq<Quad>
    decreases k,
{
    if k == 0 {
        seq![]
    } else {
        grid_quads(holes, w, h, (k - 1) as nat) + row_quads(holes, w, h, k - 1, w as nat)
    }
}

fn quad(face: Face, x: usize, z: usize) -> (q: Quad)
    ensures
        q == (Quad { face, x, z }),
{
    Quad { face, x, z }
}

/// Appends the faces of the piece at (`x`, `z`).
fn push_cell_quads(holes: &[&[bool]], w: usize, h: usize, z: usize, x: usize, out: &mut Vec<Quad>)
    requires
        h == holes@.len(),
        forall|i: int| 0 <= i < holes@.len() ==> w <= #[trigger] holes@[i]@.len(),
        z < h,
        x < w,
    ensures
        final(out)@ == old(out)@ + cell_quads(holes@, w as int, h as int, z as int, x as int),
{
    let row = holes[z];
    assert(w <= holes@[z as int]@.len());
    if !row[x] {
        out.push(quad(Face::Top, x, z));
        out.push(quad(Face::Bottom, x, z));
        let left_wall = if x == 0 { true } else { row[x - 1] };
        let right_wall = if x == w - 1 { true } else { row[x + 1] };
        let front_wall = if z == 0 {
            true
        } else {
            assert(w <= holes@[z - 1]@.len());
            holes[z - 1][x]
        };
        let back_wall = if z == h - 1 {
            true
        } else {
            assert(w <= holes@[z + 1]@.len());
            holes[z + 1][x]
        };
        if left_wall {
            out.push(quad(Face::Left, x, z));
        }
        if right_wall {
            out.push(quad(Face::Right, x, z));
        }
        if front_wall {
            out.push(quad(Face::Front, x, z));
        }
        if back_wall {
            out.push(quad(Face::Back, x, z));
        }
    }
    assert(out@ =~= old(out)@ + cell_quads(holes@, w as int, h as int, z as int, x as int));
}

/// The faces of the mesh of a field, given which of its pieces are holes: row by row, piece by
/// piece, each piece's floor, underside and walls (see `cell_quads`). The field is as wide as
/// its shortest row.
pub fn mesh_quads(holes: &[&[bool]]) -> (r: Vec<Quad>)
    requires
        holes@.len() > 0,
    ensures
        r@ == grid_quads(holes@, min_row_len(holes@, holes@.len()), holes@.len() as int, holes@.len()),
{
    let (w, h) = dimensions(holes);
    let mut out: Vec<Quad> = Vec::new();
    let mut z: usize = 0;
    while z < h
        invariant
            h == holes@.len(),
            w == min_row_len(holes@, holes@.len()),
            forall|i: int| 0 <= i < holes@.len() ==> w <= #[trigger] holes@[i]@.len(),
            z <= h,
            out@ == grid_quads(holes@, w as int, h as int, z as nat),
        decreases h - z,
    {
        let ghost before = out@;
        let mut x: usize = 0;
        while x < w
            invariant
                h == holes@.len(),
                forall|i: int| 0 <= i < holes@.len() ==> w <= #[trigger] holes@[i]@.len(),
                z < h,
                x <= w,
                out@ == before + row_quads(holes@, w as int, h as int, z as int, x as nat),
            decreases w - x,
        {
            push_cell_quads(holes, w, h, z, x, &mut out);
            x = x + 1;
            assert(out@ =~= before + row_quads(holes@, w as int, h as int, z as int, x as nat));
        }
        z = z + 1;
    }
    out
}

/// The first of the four vertices of quad number `q`: the mesh has 8 floats per vertex and 4
/// vertices per quad, and the vertex count is taken modulo 2^16 before dividing by 8 floats.
pub open spec fn quad_base(q: int) -> int {
    (32 * q) % 65536 / 8
}

/// The two counter-clockwise triangles of a quad whose vertices start at `b`.
pub open spec fn quad_triangles(face: Face, b: int) -> Seq<u16> {
    match face {
        Face::Top => seq![(b + 2) as u16, (b + 1) as u16, b as u16, (b + 2) as u16, (b + 3) as u16, (b + 1) as u16],
        Face::Bottom => seq![(b + 2) as u16, b as u16, (b + 1) as u16, (b + 2) as u16, (b + 1) as u16, (b + 3) as u16],
        Face::Left | Face::Back => seq![(b + 2) as u16, b as u16, (b + 1) as u16, (b + 3) as u16, (b + 2) as u16, (b + 1) as u16],
        Face::Right | Face::Front => seq![(b + 2) as u16, (b + 1) as u16, b as u16, (b + 3) as u16, (b + 1) as u16, (b + 2) as u16],
    }
}

/// The indices of the triangles of the first `k` quads.
pub open spec fn mesh_index_list(quads: Seq<Quad>, k: nat) -> Seq<u16>
    decreases k,
{
    if k == 0 {
        seq![]
    } else {
        mesh_index_list(quads, (k - 1) as nat) + quad_triangles(quads[k - 1].face, quad_base(k - 1))
    }
}

proof fn lemma_quad_base(q: int)
    requires
        q >= 0,
    ensures
        quad_base(q) == 4 * (q % 2048),
{
    let r = q % 2048;
    let d = q / 2048;
    assert(q == 2048 * d + r && 0 <= r < 2048) by (nonlinear_arith)
        requires r == q % 2048, d == q / 2048, q >= 0;
    assert(32 * q == 65536 * d + 32 * r) by (nonlinear_arith)
        requires q == 2048 * d + r;
    vstd::arithmetic::div_mod::lemma_mod_multiples_vanish(d, 32 * r, 65536);
    vstd::arithmetic::div_mod::lemma_small_mod((32 * r) as nat, 65536);
}

/// The index buffer of a mesh: two triangles per quad, over the quad's four vertices.
pub fn quad_indices(quads: &[Quad]) -> (r: Vec<u16>)
    ensures
        r@ == mesh_index_list(quads@, quads@.len()),
{
    let mut out: Vec<u16> = Vec::new();
    let mut q: usize = 0;
    while q < quads.len()
        invariant
            q <= quads@.len(),
            out@ == mesh_index_list(quads@, q as nat),
        decreases quads@.len() - q,
    {
        proof {
            lemma_quad_base(q as int);
        }
        let b: u16 = ((q % 2048) * 4) as u16;
        let ghost pre = out@;
        match quads[q].face {
            Face::Top => {
                out.push(b + 2);
                out.push(b + 1);
                out.push(b);
                out.push(b + 2);
                out.push(b + 3);
                out.push(b + 1);
            },
            Face::Bottom => {
                out.push(b + 2);
                out.push(b);
                out.push(b + 1);
                out.push(b + 2);
                out.push(b + 1);
                out.push(b + 3);
            },
            Face::Left | Face::Back => {
                out.push(b + 2);
                out.push(b);
                out.push(b + 1);
                out.push(b + 3);
                out.push(b + 2);
                out.push(b + 1);
            },
            Face::Right | Face::Front => {
                out.push(b + 2);
                out.push(b + 1);
                out.push(b);
                out.push(b + 3);
                out.push(b + 1);
                out.push(b + 2);
            },
        }
        assert(out@ =~= pre + quad_triangles(quads@[q as int].face, quad_base(q as int)));
        q = q + 1;
    }
    out
}

/// Every index of a mesh's triangles points at one of its quads' vertices: the four from the
/// quad's base on, and with no more than 8192 quads, within the mesh.
pub proof fn lemma_indices_in_quad(quads: Seq<Quad>, k: nat, i: int)
    requires
        0 <= i < 6 * k,
        k <= quads.len(),
    ensures
        mesh_index_list(quads, k).len() == 6 * k,
        quad_base(i / 6) <= mesh_index_list(quads, k)[i] <= quad_base(i / 6) + 3,
    decreases k,
{
    lemma_index_len(quads, k);
    if i < 6 * (k - 1) {
        lemma_indices_in_quad(quads, (k - 1) as nat, i);
    } else {
        lemma_quad_base((k - 1) as int);
        assert(i / 6 == k - 1);
    }
}

/// Where vertex `k` (0 to 3) of a face lies relative to its piece's corner at the smaller x and
/// z on the floor, in grid units: `y` is 0 at the floor and -1 at the underside. A floor or
/// underside runs along x, then along z; a wall runs along its side of the piece, then up.
pub open spec fn face_corner(f: Face, k: int) -> (int, int, int) {
    let a = k % 2;
    let b = k / 2;
    match f {
        Face::Top => (a, 0, b),
        Face::Bottom => (a, -1, b),
        Face::Left => (0, b - 1, a),
        Face::Right => (1, b - 1, a),
        Face::Front => (a, b - 1, 0),
        Face::Back => (a, b - 1, 1),
    }
}

/// Where vertex `k` (0 to 3) of a quad lies, in grid units.
pub open spec fn quad_corner(q: Quad, k: int) -> (int, int, int) {
    let (dx, y, dz) = face_corner(q.face, k);
    (q.x + dx, y, q.z + dz)
}

/// The direction a face looks to, out of its piece.
pub open spec fn face_normal(f: Face) -> (int, int, int) {
    match f {
        Face::Top => (0, 1, 0),
        Face::Bottom => (0, -1, 0),
        Face::Left => (-1, 0, 0),
        Face::Right => (1, 0, 0),
        Face::Front => (0, 0, -1),
        Face::Back => (0, 0, 1),
    }
}

/// How the triangle over vertices `i`, `j`, `k` of a face turns, seen from where the face
/// looks: positive when it runs counter-clockwise (the cross product of its edges from `i`
/// points out of the face), negative when clockwise. It does not depend on where the piece is.
pub open spec fn winding(f: Face, i: int, j: int, k: int) -> int {
    let (ax, ay, az) = face_corner(f, i);
    let (bx, by, bz) = face_corner(f, j);
    let (cx, cy, cz) = face_corner(f, k);
    let (ux, uy, uz) = (bx - ax, by - ay, bz - az);
    let (vx, vy, vz) = (cx - ax, cy - ay, cz - az);
    let (nx, ny, nz) = face_normal(f);
    (uy * vz - uz * vy) * nx + (uz * vx - ux * vz) * ny + (ux * vy - uy * vx) * nz
}

/// Every triangle of a mesh is drawn over three distinct vertices of its own quad and runs
/// counter-clockwise seen from outside the piece, so that it survives back-face culling.
pub proof fn lemma_triangles_face_outward(quads: Seq<Quad>, t: int)
    requires
        0 <= t < 2 * quads.len(),
    ensures
        ({
            let l = mesh_index_list(quads, quads.len());
            let q = t / 2;
            let b = quad_base(q);
            &&& 0 <= l[3 * t] - b < 4
            &&& 0 <= l[3 * t + 1] - b < 4
            &&& 0 <= l[3 * t + 2] - b < 4
            &&& winding(quads[q].face, l[3 * t] - b, l[3 * t + 1] - b, l[3 * t + 2] - b) > 0
        }),
{
    let k = quads.len();
    let q = t / 2;
    lemma_index_at(quads, k, 3 * t);
    lemma_index_at(quads, k, 3 * t + 1);
    lemma_index_at(quads, k, 3 * t + 2);
    lemma_quad_base(q);
    assert((3 * t) / 6 == q && (3 * t + 1) / 6 == q && (3 * t + 2) / 6 == q);
    assert((3 * t) % 6 == 3 * (t % 2));
    assert((3 * t + 1) % 6 == 3 * (t % 2) + 1);
    assert((3 * t + 2) % 6 == 3 * (t % 2) + 2);
    let b = quad_base(q);
    let qd = quads[q];
    let tri = quad_triangles(qd.face, b);
    let m = 3 * (t % 2);
    assert(0 <= b <= 8188);
    let (i, j, n) = (tri[m] - b, tri[m + 1] - b, tri[m + 2] - b);
    match qd.face {
        Face::Top => {
            if m == 0 { assert((i, j, n) == (2int, 1int, 0int)); } else { assert((i, j, n) == (2int, 3int, 1int)); }
        },
        Face::Bottom => {
            if m == 0 { assert((i, j, n) == (2int, 0int, 1int)); } else { assert((i, j, n) == (2int, 1int, 3int)); }
        },
        Face::Left | Face::Back => {
            if m == 0 { assert((i, j, n) == (2int, 0int, 1int)); } else { assert((i, j, n) == (3int, 2int, 1int)); }
        },
        Face::Right | Face::Front => {
            if m == 0 { assert((i, j, n) == (2int, 1int, 0int)); } else { assert((i, j, n) == (3int, 1int, 2int)); }
        },
    }
    lemma_face_windings();
    assert(winding(qd.face, i, j, n) > 0);
}

/// Each face's two triangles run counter-clockwise seen from where the face looks.
proof fn lemma_face_windings()
    ensures
        winding(Face::Top, 2, 1, 0) > 0,
        winding(Face::Top, 2, 3, 1) > 0,
        winding(Face::Bottom, 2, 0, 1) > 0,
        winding(Face::Bottom, 2, 1, 3) > 0,
        winding(Face::Left, 2, 0, 1) > 0,
        winding(Face::Left, 3, 2, 1) > 0,
        winding(Face::Back, 2, 0, 1) > 0,
        winding(Face::Back, 3, 2, 1) > 0,
        winding(Face::Right, 2, 1, 0) > 0,
        winding(Face::Right, 3, 1, 2) > 0,
        winding(Face::Front, 2, 1, 0) > 0,
        winding(Face::Front, 3, 1, 2) > 0,
{
    assert(face_corner(Face::Top, 0) == (0int, 0int, 0int));
    assert(face_corner(Face::Top, 1) == (1int, 0int, 0int));
    assert(face_corner(Face::Top, 2) == (0int, 0int, 1int));
    assert(face_corner(Face::Top, 3) == (1int, 0int, 1int));
    assert(winding(Face::Top, 2, 1, 0) > 0) by (nonlinear_arith)
        requires
            face_corner(Face::Top, 0) == (0int, 0int, 0int),
            face_corner(Face::Top, 1) == (1int, 0int, 0int),
            face_corner(Face::Top, 2) == (0int, 0int, 1int),
    ;
    assert(winding(Face::Top, 2, 3, 1) > 0) by (nonlinear_arith)
        requires
            face_corner(Face::Top, 1) == (1int, 0int, 0int),
            face_corner(Face::Top, 2) == (0int, 0int, 1int),
            face_corner(Face::Top, 3) == (1int, 0int, 1int),
    ;
    assert(face_corner(Face::Bottom, 0) == (0int, -1int, 0int));
    assert(face_corner(Face::Bottom, 1) == (1int, -1int, 0int));
    assert(face_corner(Face::Bottom, 2) == (0int, -1int, 1int));
    assert(face_corner(Face::Bottom, 3) == (1int, -1int, 1int));
    assert(winding(Face::Bottom, 2, 0, 1) > 0) by (nonlinear_arith)
        requires
            face_corner(Face::Bottom, 0) == (0int, -1int, 0int),
            face_corner(Face::Bottom, 1) == (1int, -1int, 0int),
            face_corner(Face::Bottom, 2) == (0int, -1int, 1int),
    ;
    assert(winding(Face::Bottom, 2, 1, 3) > 0) by (nonlinear_arith)
        requires
            face_corner(Face::Bottom, 1) == (1int, -1int, 0int),
            face_corner(Face::Bottom, 2) == (0int, -1int, 1int),
            face_corner(Face::Bottom, 3) == (1int, -1int, 1int),
    ;
    assert(face_corner(Face::Left, 0) == (0int, -1int, 0int));
    assert(face_corner(Face::Left, 1) == (0int, -1int, 1int));
    assert(face_corner(Face::Left, 2) == (0int, 0int, 0int));
    assert(face_corner(Face::Left, 3) == (0int, 0int, 1int));
    assert(winding(Face::Left, 2, 0, 1) > 0) by (nonlinear_arith)
        requires
            face_corner(Face::Left, 0) == (0int, -1int, 0int),
            face_corner(Face::Left, 1) == (0int, -1int, 1int),
            face_corner(Face::Left, 2) == (0int, 0int, 0int),
    ;
    assert(winding(Face::Left, 3, 2, 1) > 0) by (nonlinear_arith)
        requires
            face_corner(Face::Left, 1) == (0int, -1int, 1int),
            face_corner(Face::Left, 2) == (0int, 0int, 0int),
            face_corner(Face::Left, 3) == (0int, 0int, 1int),
    ;
    assert(face_corner(Face::Back, 0) == (0int, -1int, 1int));
    assert(face_corner(Face::Back, 1) == (1int, -1int, 1int));
    assert(face_corner(Face::Back, 2) == (0int, 0int, 1int));
    assert(face_corner(Face::Back, 3) == (1int, 0int, 1int));
    assert(winding(Face::Back, 2, 0, 1) > 0) by (nonlinear_arith)
        requires
            face_corner(Face::Back, 0) == (0int, -1int, 1int),
            face_corner(Face::Back, 1) == (1int, -1int, 1int),
            face_corner(Face::Back, 2) == (0int, 0int, 1int),
    ;
    assert(winding(Face::Back, 3, 2, 1) > 0) by (nonlinear_arith)
        requires
            face_corner(Face::Back, 1) == (1int, -1int, 1int),
            face_corner(Face::Back, 2) == (0int, 0int, 1int),
            face_corner(Face::Back, 3) == (1int, 0int, 1int),
    ;
    assert(face_corner(Face::Right, 0) == (1int, -1int, 0int));
    assert(face_corner(Face::Right, 1) == (1int, -1int, 1int));
    assert(face_corner(Face::Right, 2) == (1int, 0int, 0int));
    assert(face_corner(Face::Right, 3) == (1int, 0int, 1int));
    assert(winding(Face::Right, 2, 1, 0) > 0) by (nonlinear_arith)
        requires
            face_corner(Face::Right, 0) == (1int, -1int, 0int),
            face_corner(Face::Right, 1) == (1int, -1int, 1int),
            face_corner(Face::Right, 2) == (1int, 0int, 0int),
    ;
    assert(winding(Face::Right, 3, 1, 2) > 0) by (nonlinear_arith)
        requires
            face_corner(Face::Right, 1) == (1int, -1int, 1int),
            face_corner(Face::Right, 2) == (1int, 0int, 0int),
            face_corner(Face::Right, 3) == (1int, 0int, 1int),
    ;
    assert(face_corner(Face::Front, 0) == (0int, -1int, 0int));
    assert(face_corner(Face::Front, 1) == (1int, -1int, 0int));
    assert(face_corner(Face::Front, 2) == (0int, 0int, 0int));
    assert(face_corner(Face::Front, 3) == (1int, 0int, 0int));
    assert(winding(Face::Front, 2, 1, 0) > 0) by (nonlinear_arith)
        requires
            face_corner(Face::Front, 0) == (0int, -1int, 0int),
            face_corner(Face::Front, 1) == (1int, -1int, 0int),
            face_corner(Face::Front, 2) == (0int, 0int, 0int),
    ;
    assert(winding(Face::Front, 3, 1, 2) > 0) by (nonlinear_arith)
        requires
            face_corner(Face::Front, 1) == (1int, -1int, 0int),
            face_corner(Face::Front, 2) == (0int, 0int, 0int),
            face_corner(Face::Front, 3) == (1int, 0int, 0int),
    ;
}

proof fn lemma_index_at(quads: Seq<Quad>, k: nat, i: int)
    requires
        0 <= i < 6 * k,
        k <= quads.len(),
    ensures
        mesh_index_list(quads, k)[i] == quad_triangles(quads[i / 6].face, quad_base(i / 6))[i % 6],
    decreases k,
{
    lemma_index_len(quads, (k - 1) as nat);
    if i < 6 * (k - 1) {
        lemma_index_at(quads, (k - 1) as nat, i);
    } else {
        assert(i / 6 == k - 1);
    }
}

proof fn lemma_index_len(quads: Seq<Quad>, k: nat)
    ensures
        mesh_index_list(quads, k).len() == 6 * k,
    decreases k,
{
    if k > 0 {
        lemma_index_len(quads, (k - 1) as nat);
    }
}

/// The cell (`x`, `z`) as a candidate for ground contact: kept when it lies in the `w` by `h`
/// grid and is not a hole.
pub open spec fn ground_cell(holes: Seq<&[bool]>, w: int, h: int, x: int, z: int) -> Seq<(usize, usize)> {
    if 0 <= x < w && 0 <= z < h && !holes[z]@[x] {
        seq![(x as usize, z as usize)]
    } else {
        seq![]
    }
}

/// The solid cells among the four around the grid corner nearest to a point, in the order
/// they are tested: (x-1, z-1), (x-1, z), (x, z-1), (x, z).
pub open spec fn ground_cells_near(holes: Seq<&[bool]>, w: int, h: int, x: int, z: int) -> Seq<(usize, usize)> {
    ground_cell(holes, w, h, x - 1, z - 1) + ground_cell(holes, w, h, x - 1, z) + ground_cell(holes, w, h, x, z - 1)
        + ground_cell(holes, w, h, x, z)
}

fn push_ground_cell(holes: &[&[bool]], w: usize, h: usize, x: isize, z: isize, out: &mut Vec<(usize, usize)>)
    requires
        h == holes@.len(),
        forall|i: int| 0 <= i < holes@.len() ==> w <= #[trigger] holes@[i]@.len(),
    ensures
        final(out)@ == old(out)@ + ground_cell(holes@, w as int, h as int, x as int, z as int),
{
    if x < 0 || z < 0 {
        return;
    }
    let ux = x as usize;
    let uz = z as usize;
    if ux >= w || uz >= h {
        return;
    }
    assert(w <= holes@[uz as int]@.len());
    if !holes[uz][ux] {
        out.push((ux, uz));
    }
}

/// The solid cells a player near the grid corner (`nearest_x`, `nearest_z`) may stand on,
/// in the order they are tested for contact.
pub fn ground_cells(holes: &[&[bool]], nearest_x: isize, nearest_z: isize) -> (r: Vec<(usize, usize)>)
    requires
        holes@.len() > 0,
    ensures
        r@ == ground_cells_near(
            holes@,
            min_row_len(holes@, holes@.len()),
            holes@.len() as int,
            nearest_x as int,
            nearest_z as int,
        ),
{
    let (w, h) = dimensions(holes);
    let mut out: Vec<(usize, usize)> = Vec::new();
    let ghost hs = holes@;
    let ghost (wi, hi, xi, zi) = (w as int, h as int, nearest_x as int, nearest_z as int);
    if nearest_x > isize::MIN {
        if nearest_z > isize::MIN {
            push_ground_cell(holes, w, h, nearest_x - 1, nearest_z - 1, &mut out);
        }
        push_ground_cell(holes, w, h, nearest_x - 1, nearest_z, &mut out);
    }
    if nearest_z > isize::MIN {
        push_ground_cell(holes, w, h, nearest_x, nearest_z - 1, &mut out);
    }
    push_ground_cell(holes, w, h, nearest_x, nearest_z, &mut out);
    assert(out@ =~= ground_cells_near(hs, wi, hi, xi, zi));
    out
}

/// The pieces of the example maze: `__` is a hole, the others are solid blocks.
#[derive(Debug, Clone, Copy, PartialEq, Eq, Structural)]
#[allow(non_camel_case_types)]
pub enum TestPiece {
    __,
    Stone,
    Brick,
    Grass,
}

impl TestPiece {
    /// Whether the piece is a hole.
    pub fn is_empty(&self) -> (r: bool)
        ensures
            r <==> *self == TestPiece::__,
    {
        match self {
            TestPiece::__ => true,
            _ => false,
        }
    }
}

} // verus!
