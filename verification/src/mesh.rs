//! The layout of a part's mesh: a box for every solid voxel, each box drawn as
//! six faces of two triangles over 24 vertices of its own.

use vstd::prelude::*;

use crate::materials::Material;
use crate::part::{Part, PartView, VoxelPos};

verus! {

/// Whether voxel `a` comes before voxel `b` when going along `x` first, then `y`, then `z`.
pub open spec fn lex_before(a: VoxelPos, b: VoxelPos) -> bool {
    ||| a.x < b.x
    ||| a.x == b.x && a.y < b.y
    ||| a.x == b.x && a.y == b.y && a.z < b.z
}

/// A voxel of the part that is not empty.
pub open spec fn is_solid(part: PartView, v: VoxelPos) -> bool {
    &&& part.contains(v.x as int, v.y as int, v.z as int)
    &&& part.material(v.x as int, v.y as int, v.z as int) != Material::Empty
}

/// The voxels a part's mesh draws a box for, in the order it draws them: each
/// solid voxel once, going along `x` first, then `y`, then `z`.
pub open spec fn is_mesh_order(part: PartView, voxels: Seq<VoxelPos>) -> bool {
    &&& forall|i: int| 0 <= i < voxels.len() ==> is_solid(part, #[trigger] voxels[i])
    &&& forall|v: VoxelPos| is_solid(part, v) ==> #[trigger] voxels.contains(v)
    &&& forall|i: int, j: int| 0 <= i < j < voxels.len() ==> lex_before(voxels[i], voxels[j])
}

/// In mesh order a voxel with a smaller `x` comes first; with the same `x`, one with
/// a smaller `y`; with the same `x` and `y`, one with a smaller `z`.
pub proof fn lemma_mesh_order_x_then_y_then_z(part: PartView, voxels: Seq<VoxelPos>, i: int, j: int)
    requires
        is_mesh_order(part, voxels),
        0 <= i < voxels.len(),
        0 <= j < voxels.len(),
    ensures
        voxels[i].x < voxels[j].x ==> i < j,
        voxels[i].x == voxels[j].x && voxels[i].y < voxels[j].y ==> i < j,
        voxels[i].x == voxels[j].x && voxels[i].y == voxels[j].y && voxels[i].z < voxels[j].z ==> i < j,
{
    if j < i {
        assert(lex_before(voxels[j], voxels[i]));
    }
}

/// The solid voxels of a part, in the order its mesh draws them.
pub fn mesh_voxels(part: &Part) -> (voxels: Vec<VoxelPos>)
    requires
        part.deep_view().has_all_voxels(),
    ensures
        is_mesh_order(part.deep_view(), voxels@),
{
    let ghost p = part.deep_view();
    let mut voxels: Vec<VoxelPos> = Vec::new();
    let mut x: u8 = 0;
    while x < part.width()
        invariant
            p == part.deep_view(),
            p.has_all_voxels(),
            x <= p.width,
            forall|i: int| 0 <= i < voxels@.len() ==> is_solid(p, #[trigger] voxels@[i]),
            forall|i: int| 0 <= i < voxels@.len() ==> (#[trigger] voxels@[i]).x < x,
            forall|v: VoxelPos| is_solid(p, v) && v.x < x ==> #[trigger] voxels@.contains(v),
            forall|i: int, j: int| 0 <= i < j < voxels@.len() ==> lex_before(voxels@[i], voxels@[j]),
        decreases p.width - x,
    {
        let mut y: u8 = 0;
        while y < part.height()
            invariant
                p == part.deep_view(),
                p.has_all_voxels(),
                x < p.width,
                y <= p.height,
                forall|i: int| 0 <= i < voxels@.len() ==> is_solid(p, #[trigger] voxels@[i]),
                forall|i: int|
                    0 <= i < voxels@.len() ==> (#[trigger] voxels@[i]).x < x || (voxels@[i].x == x
                        && voxels@[i].y < y),
                forall|v: VoxelPos|
                    is_solid(p, v) && (v.x < x || (v.x == x && v.y < y)) ==> #[trigger] voxels@.contains(v),
                forall|i: int, j: int|
                    0 <= i < j < voxels@.len() ==> lex_before(voxels@[i], voxels@[j]),
            decreases p.height - y,
        {
            let mut z: u8 = 0;
            while z < part.depth()
                invariant
                    p == part.deep_view(),
                    p.has_all_voxels(),
                    x < p.width,
                    y < p.height,
                    z <= p.depth,
                    forall|i: int| 0 <= i < voxels@.len() ==> is_solid(p, #[trigger] voxels@[i]),
                    forall|i: int|
                        0 <= i < voxels@.len() ==> lex_before(#[trigger] voxels@[i], VoxelPos { x, y, z }),
                    forall|v: VoxelPos|
                        is_solid(p, v) && lex_before(v, VoxelPos { x, y, z }) ==> #[trigger] voxels@.contains(v),
                    forall|i: int, j: int|
                        0 <= i < j < voxels@.len() ==> lex_before(voxels@[i], voxels@[j]),
                decreases p.depth - z,
            {
                let pos = VoxelPos::new(x, y, z);
                let ghost before = voxels@;
                if part.get(pos) != Material::Empty {
                    voxels.push(pos);
                    proof {
                        assert forall|v: VoxelPos|
                            is_solid(p, v) && lex_before(v, VoxelPos { x, y, z: (z + 1) as u8 }) implies #[trigger] voxels@.contains(v) by {
                            if v == pos {
                                assert(voxels@[before.len() as int] == v);
                            } else {
                                assert(before.contains(v));
                                let k = choose|k: int| 0 <= k < before.len() && before[k] == v;
                                assert(voxels@[k] == v);
                            }
                        }
                    }
                } else {
                    proof {
                        assert forall|v: VoxelPos|
                            is_solid(p, v) && lex_before(v, VoxelPos { x, y, z: (z + 1) as u8 }) implies #[trigger] voxels@.contains(v) by {
                            if v == pos {
                                assert(!is_solid(p, v));
                            }
                        }
                    }
                }
                z = z + 1;
            }
            y = y + 1;
        }
        x = x + 1;
    }
    voxels
}

/// Voxels in mesh order are told apart by that order alone: two sequences that
/// both list each solid voxel of a part once, in that order, are the same.
pub proof fn lemma_mesh_order_unique(part: PartView, a: Seq<VoxelPos>, b: Seq<VoxelPos>)
    requires
        is_mesh_order(part, a),
        is_mesh_order(part, b),
    ensures
        a == b,
{
    assert forall|v: VoxelPos| #[trigger] a.contains(v) <==> b.contains(v) by {
        if a.contains(v) {
            let k = choose|k: int| 0 <= k < a.len() && a[k] == v;
            assert(is_solid(part, a[k]));
        }
        if b.contains(v) {
            let k = choose|k: int| 0 <= k < b.len() && b[k] == v;
            assert(is_solid(part, b[k]));
        }
    }
    lemma_sorted_same_elements(a, b);
}

/// Two sequences sorted strictly in mesh order with the same elements are the same.
proof fn lemma_sorted_same_elements(a: Seq<VoxelPos>, b: Seq<VoxelPos>)
    requires
        forall|i: int, j: int| 0 <= i < j < a.len() ==> lex_before(a[i], a[j]),
        forall|i: int, j: int| 0 <= i < j < b.len() ==> lex_before(b[i], b[j]),
        forall|v: VoxelPos| #[trigger] a.contains(v) <==> b.contains(v),
    ensures
        a == b,
    decreases a.len() + b.len(),
{
    if a.len() == 0 || b.len() == 0 {
        if a.len() > 0 {
            assert(a.contains(a[0]));
            assert(b.contains(a[0]));
        }
        if b.len() > 0 {
            assert(b.contains(b[0]));
            assert(a.contains(b[0]));
        }
        assert(a =~= b);
    } else {
        let (x, y) = (a[0], b[0]);
        assert(a.contains(x));
        assert(b.contains(x));
        assert(b.contains(y));
        assert(a.contains(y));
        let i = choose|i: int| 0 <= i < a.len() && a[i] == y;
        let j = choose|j: int| 0 <= j < b.len() && b[j] == x;
        if i > 0 && j > 0 {
            assert(lex_before(x, y));
            assert(lex_before(y, x));
        }
        assert(x == y);
        let a1 = a.drop_first();
        let b1 = b.drop_first();
        assert forall|i: int, j: int| 0 <= i < j < a1.len() implies lex_before(a1[i], a1[j]) by {
            assert(a1[i] == a[i + 1] && a1[j] == a[j + 1]);
        }
        assert forall|i: int, j: int| 0 <= i < j < b1.len() implies lex_before(b1[i], b1[j]) by {
            assert(b1[i] == b[i + 1] && b1[j] == b[j + 1]);
        }
        assert forall|v: VoxelPos| #[trigger] a1.contains(v) <==> b1.contains(v) by {
            if a1.contains(v) {
                let k = choose|k: int| 0 <= k < a1.len() && a1[k] == v;
                assert(a[k + 1] == v);
                assert(lex_before(x, v));
                assert(a.contains(v));
                assert(b.contains(v));
                let m = choose|m: int| 0 <= m < b.len() && b[m] == v;
                assert(m != 0);
                assert(b1[m - 1] == v);
            }
            if b1.contains(v) {
                let k = choose|k: int| 0 <= k < b1.len() && b1[k] == v;
                assert(b[k + 1] == v);
                assert(lex_before(y, v));
                assert(b.contains(v));
                assert(a.contains(v));
                let m = choose|m: int| 0 <= m < a.len() && a[m] == v;
                assert(m != 0);
                assert(a1[m - 1] == v);
            }
        }
        lemma_sorted_same_elements(a1, b1);
        assert(a =~= seq![x] + a1);
        assert(b =~= seq![y] + b1);
    }
}

/// The corner, among the four of its face, that the `k`-th index of a face's two
/// triangles names: `0, 1, 2` then `2, 3, 0`.
pub open spec fn face_corner(k: int) -> int {
    if k == 0 || k == 5 {
        0
    } else if k == 1 {
        1
    } else if k == 2 || k == 3 {
        2
    } else {
        3
    }
}

/// The vertex, among a box's 24, that the `j`-th of its 36 triangle indices names:
/// faces in turn, four vertices each.
pub open spec fn box_corner(j: int) -> int {
    4 * (j / 6) + face_corner(j % 6)
}

/// The 36 triangle indices of a box whose vertices start at `offset`.
pub open spec fn box_indices(offset: int) -> Seq<u32> {
    Seq::new(36, |j: int| (offset + box_corner(j)) as u32)
}

/// Whether the indices `s` draw one box whose 24 vertices start at `offset`: 36
/// indices, six for each face in turn, the six of the `f`-th face naming only that
/// face's four vertices `offset + 4f` to `offset + 4f + 3`, and each of the 24
/// vertices named by some index.
pub open spec fn draws_box_faces(s: Seq<u32>, offset: int) -> bool {
    &&& s.len() == 36
    &&& forall|j: int|
        0 <= j < 36 ==> offset + 4 * (j / 6) <= #[trigger] s[j] < offset + 4 * (j / 6) + 4
    &&& forall|x: u32| offset <= x < offset + 24 ==> #[trigger] s.contains(x)
}

/// Every box is drawn whole and face by face: its 36 triangle indices name each of
/// its 24 vertices, and the indices of its `f`-th face name only that face's four.
pub proof fn lemma_box_faces(offset: int)
    requires
        0 <= offset,
        offset + 24 <= u32::MAX,
    ensures
        draws_box_faces(box_indices(offset), offset),
{
    let s = box_indices(offset);
    assert forall|j: int| 0 <= j < 36 implies offset + 4 * (j / 6) <= #[trigger] s[j] < offset + 4
        * (j / 6) + 4 by {
        assert(0 <= face_corner(j % 6) < 4);
    }
    assert forall|x: u32| offset <= x < offset + 24 implies #[trigger] s.contains(x) by {
        let v: int = x - offset;
        let w: int = if v % 4 == 3 {
            4
        } else {
            v % 4
        };
        let j: int = 6 * (v / 4) + w;
        assert(j / 6 == v / 4 && j % 6 == w);
        assert(face_corner(w) == v % 4);
        assert(s[j] == x);
    }
}

/// Appends the triangles of one box whose 24 vertices start at `index_offset`, and
/// moves the offset past them.
pub fn add_box_triangles(triangles: &mut Vec<u32>, index_offset: &mut u32)
    requires
        *old(index_offset) + 24 <= u32::MAX,
    ensures
        final(triangles)@ == old(triangles)@ + box_indices(*old(index_offset) as int),
        draws_box_faces(
            final(triangles)@.subrange(old(triangles)@.len() as int, final(triangles)@.len() as int),
            *old(index_offset) as int,
        ),
        *final(index_offset) == *old(index_offset) + 24,
{
    let o = *index_offset;
    // Front
    triangles.push(o);
    triangles.push(o + 1);
    triangles.push(o + 2);
    triangles.push(o + 2);
    triangles.push(o + 3);
    triangles.push(o);
    // Back
    triangles.push(o + 4);
    triangles.push(o + 5);
    triangles.push(o + 6);
    triangles.push(o + 6);
    triangles.push(o + 7);
    triangles.push(o + 4);
    // Right
    triangles.push(o + 8);
    triangles.push(o + 9);
    triangles.push(o + 10);
    triangles.push(o + 10);
    triangles.push(o + 11);
    triangles.push(o + 8);
    // Left
    triangles.push(o + 12);
    triangles.push(o + 13);
    triangles.push(o + 14);
    triangles.push(o + 14);
    triangles.push(o + 15);
    triangles.push(o + 12);
    // Top
    triangles.push(o + 16);
    triangles.push(o + 17);
    triangles.push(o + 18);
    triangles.push(o + 18);
    triangles.push(o + 19);
    triangles.push(o + 16);
    // Bottom
    triangles.push(o + 20);
    triangles.push(o + 21);
    triangles.push(o + 22);
    triangles.push(o + 22);
    triangles.push(o + 23);
    triangles.push(o + 20);
    *index_offset = o + 24;
    proof {
        let added = box_indices(o as int);
        assert forall|j: int| 0 <= j < 36 implies #[trigger] triangles@[old(triangles)@.len() + j]
            == added[j] by {
            assert(0 <= j < 36);
        }
        assert(triangles@ =~= old(triangles)@ + added);
        assert(triangles@.subrange(old(triangles)@.len() as int, triangles@.len() as int) =~= added);
        lemma_box_faces(o as int);
    }
}

/// The triangle indices of a mesh of `count` boxes: each box's 36, in order,
/// naming that box's own 24 vertices.
pub fn box_triangles(count: usize) -> (triangles: Vec<u32>)
    requires
        24 * count <= u32::MAX,
    ensures
        triangles@.len() == 36 * count,
        forall|k: int, j: int|
            0 <= k < count && 0 <= j < 36 ==> #[trigger] triangles@[36 * k + j] == 24 * k
                + box_corner(j),
        forall|k: int|
            0 <= k < count ==> draws_box_faces(
                #[trigger] triangles@.subrange(36 * k, 36 * k + 36),
                24 * k,
            ),
{
    let mut triangles: Vec<u32> = Vec::new();
    let mut index_offset: u32 = 0;
    let mut k: usize = 0;
    while k < count
        invariant
            k <= count,
            24 * count <= u32::MAX,
            index_offset == 24 * k,
            triangles@.len() == 36 * k,
            forall|m: int, j: int|
                0 <= m < k && 0 <= j < 36 ==> #[trigger] triangles@[36 * m + j] == 24 * m
                    + box_corner(j),
        decreases count - k,
    {
        let ghost before = triangles@;
        add_box_triangles(&mut triangles, &mut index_offset);
        proof {
            assert forall|m: int, j: int|
                0 <= m < k + 1 && 0 <= j < 36 implies #[trigger] triangles@[36 * m + j] == 24 * m
                + box_corner(j) by {
                if m < k {
                    assert(36 * m + j < 36 * k) by (nonlinear_arith)
                        requires
                            m < k,
                            j < 36,
                    ;
                    assert(triangles@[36 * m + j] == before[36 * m + j]);
                } else {
                    assert(triangles@[36 * m + j] == box_indices(24 * k)[j]);
                }
            }
        }
        k = k + 1;
    }
    proof {
        assert forall|m: int| 0 <= m < count implies draws_box_faces(
            #[trigger] triangles@.subrange(36 * m, 36 * m + 36),
            24 * m,
        ) by {
            assert(36 * m + 36 <= 36 * count && 24 * m + 24 <= 24 * count) by (nonlinear_arith)
                requires
                    0 <= m < count,
            ;
            let seg = triangles@.subrange(36 * m, 36 * m + 36);
            assert forall|j: int| 0 <= j < 36 implies #[trigger] seg[j] == box_indices(24 * m)[j] by {
                assert(triangles@[36 * m + j] == 24 * m + box_corner(j));
            }
            assert(seg =~= box_indices(24 * m));
            lemma_box_faces(24 * m);
        }
    }
    triangles
}

} // verus!
