//! Splitting a part's solid voxels into boxes, one collider each.
//!
//! The voxels are scanned layer by layer (`z`), row by row (`y`), voxel by voxel
//! (`x`). Each solid voxel not yet taken starts a box, which grows as far as it can
//! along `x`, then row by row along `y`, then layer by layer along `z`, over voxels
//! of the same material not yet taken.

use vstd::prelude::*;

use crate::materials::Material;
use crate::part::{lemma_voxel_index_bounds, lemma_voxel_index_injective, Part, PartView, VoxelPos};

verus! {

/// A box of voxels from `min` to `max`, both included, all of one material.
#[derive(Clone, Copy, Debug, PartialEq, Eq, Structural)]
pub struct VoxelBox {
    pub min: VoxelPos,
    pub max: VoxelPos,
    pub material: Material,
}

impl VoxelBox {
    pub open spec fn contains(self, x: int, y: int, z: int) -> bool {
        &&& self.min.x <= x <= self.max.x
        &&& self.min.y <= y <= self.max.y
        &&& self.min.z <= z <= self.max.z
    }

    /// The box lies in the part, is not empty, and every voxel in it is of its
    /// material, which is a solid one.
    pub open spec fn fits(self, p: PartView) -> bool {
        &&& self.min.x <= self.max.x && self.min.y <= self.max.y && self.min.z <= self.max.z
        &&& p.contains(self.max.x as int, self.max.y as int, self.max.z as int)
        &&& self.material != Material::Empty
        &&& forall|x: int, y: int, z: int|
            #[trigger] self.contains(x, y, z) ==> p.material(x, y, z) == self.material
    }

    /// The two boxes have no voxel in common: they are apart along some axis.
    pub open spec fn apart(self, other: VoxelBox) -> bool {
        ||| self.max.x < other.min.x || other.max.x < self.min.x
        ||| self.max.y < other.min.y || other.max.y < self.min.y
        ||| self.max.z < other.min.z || other.max.z < self.min.z
    }
}

/// Some box of `boxes` holds the voxel.
pub open spec fn covered(boxes: Seq<VoxelBox>, x: int, y: int, z: int) -> bool {
    exists|k: int| 0 <= k < boxes.len() && #[trigger] boxes[k].contains(x, y, z)
}

/// `boxes` split the solid voxels of `p`: each box fits the part, no two share a
/// voxel, and every solid voxel lies in one of them.
pub open spec fn splits_solid_voxels(p: PartView, boxes: Seq<VoxelBox>) -> bool {
    &&& forall|k: int| 0 <= k < boxes.len() ==> #[trigger] boxes[k].fits(p)
    &&& forall|k1: int, k2: int|
        0 <= k1 < boxes.len() && 0 <= k2 < boxes.len() && k1 != k2 ==> #[trigger] boxes[k1].apart(
            #[trigger] boxes[k2],
        )
    &&& forall|x: int, y: int, z: int|
        p.contains(x, y, z) && p.material(x, y, z) != Material::Empty ==> #[trigger] covered(
            boxes,
            x,
            y,
            z,
        )
}

/// A voxel of the part of material `m` that no box of `earlier` holds: one a box of
/// `m` may still grow over.
pub open spec fn free_for(p: PartView, earlier: Seq<VoxelBox>, m: Material, x: int, y: int, z: int) -> bool {
    &&& p.contains(x, y, z)
    &&& p.material(x, y, z) == m
    &&& !covered(earlier, x, y, z)
}

/// Box `k` of `boxes` is the one the scan makes next: it starts at the first solid
/// voxel, in scan order, that no earlier box holds, and grows as far as it can
/// along `x`, then along `y` over whole rows, then along `z` over whole layers,
/// over voxels of its material that no earlier box holds.
pub open spec fn grown_greedily(p: PartView, boxes: Seq<VoxelBox>, k: int) -> bool {
    let b = boxes[k];
    let earlier = boxes.take(k);
    &&& forall|x: int, y: int, z: int|
        p.contains(x, y, z) && p.material(x, y, z) != Material::Empty && scanned_before(
            x,
            y,
            z,
            b.min.x as int,
            b.min.y as int,
            b.min.z as int,
        ) ==> #[trigger] covered(earlier, x, y, z)
    &&& b.max.x + 1 < p.width ==> !free_for(p, earlier, b.material, b.max.x + 1, b.min.y as int, b.min.z as int)
    &&& b.max.y + 1 < p.height ==> !(forall|x: int|
        b.min.x <= x <= b.max.x ==> #[trigger] free_for(p, earlier, b.material, x, b.max.y + 1, b.min.z as int))
    &&& b.max.z + 1 < p.depth ==> !(forall|x: int, y: int|
        b.min.x <= x <= b.max.x && b.min.y <= y <= b.max.y ==> #[trigger] free_for(
            p,
            earlier,
            b.material,
            x,
            y,
            b.max.z + 1,
        ))
}

/// `boxes` are the boxes the scan makes, in the order it makes them: they split the
/// solid voxels, each starts after the one before in scan order, and each grew as
/// the scan grows boxes.
pub open spec fn scan_split(p: PartView, boxes: Seq<VoxelBox>) -> bool {
    &&& splits_solid_voxels(p, boxes)
    &&& forall|i: int, j: int|
        0 <= i < j < boxes.len() ==> scanned_before(
            #[trigger] boxes[i].min.x as int,
            boxes[i].min.y as int,
            boxes[i].min.z as int,
            #[trigger] boxes[j].min.x as int,
            boxes[j].min.y as int,
            boxes[j].min.z as int,
        )
    &&& forall|k: int| 0 <= k < boxes.len() ==> #[trigger] grown_greedily(p, boxes, k)
}

/// What the scan keeps of the boxes it made while it stands at `(sx, sy, sz)`: each
/// grew as the scan grows boxes, they started in scan order, all before where the
/// scan stands.
pub open spec fn greedy_state(p: PartView, boxes: Seq<VoxelBox>, sx: int, sy: int, sz: int) -> bool {
    &&& forall|k: int| 0 <= k < boxes.len() ==> #[trigger] grown_greedily(p, boxes, k)
    &&& forall|i: int, j: int|
        0 <= i < j < boxes.len() ==> scanned_before(
            #[trigger] boxes[i].min.x as int,
            boxes[i].min.y as int,
            boxes[i].min.z as int,
            #[trigger] boxes[j].min.x as int,
            boxes[j].min.y as int,
            boxes[j].min.z as int,
        )
    &&& forall|k: int|
        0 <= k < boxes.len() ==> scanned_before(
            #[trigger] boxes[k].min.x as int,
            boxes[k].min.y as int,
            boxes[k].min.z as int,
            sx,
            sy,
            sz,
        )
}

/// Whether the voxel has been taken, in the scan's record.
pub open spec fn taken(t: Seq<bool>, p: PartView, x: int, y: int, z: int) -> bool {
    t[p.index(x, y, z)]
}

/// Voxel `a` comes before voxel `b` in scan order.
pub open spec fn scanned_before(ax: int, ay: int, az: int, bx: int, by: int, bz: int) -> bool {
    ||| az < bz
    ||| az == bz && ay < by
    ||| az == bz && ay == by && ax < bx
}

/// Whether the voxel has been taken.
fn is_taken(tested: &Vec<bool>, part: &Part, x: u8, y: u8, z: u8) -> (res: bool)
    requires
        part.deep_view().contains(x as int, y as int, z as int),
        tested@.len() == part.deep_view().size(),
    ensures
        res == taken(tested@, part.deep_view(), x as int, y as int, z as int),
{
    let i = part.voxel_to_index(x, y, z);
    tested[i]
}

/// Records a voxel as taken; no other voxel's record changes.
fn take(tested: &mut Vec<bool>, part: &Part, x: u8, y: u8, z: u8)
    requires
        part.deep_view().contains(x as int, y as int, z as int),
        old(tested)@.len() == part.deep_view().size(),
    ensures
        final(tested)@.len() == old(tested)@.len(),
        forall|a: int, b: int, c: int|
            part.deep_view().contains(a, b, c) ==> #[trigger] taken(final(tested)@, part.deep_view(), a, b, c)
                == (taken(old(tested)@, part.deep_view(), a, b, c) || (a == x && b == y && c == z)),
{
    let i = part.voxel_to_index(x, y, z);
    tested.set(i, true);
    proof {
        let p = part.deep_view();
        assert forall|a: int, b: int, c: int| p.contains(a, b, c) implies #[trigger] taken(tested@, p, a, b, c)
            == (taken(old(tested)@, p, a, b, c) || (a == x && b == y && c == z)) by {
            lemma_voxel_index_bounds(p.width as int, p.height as int, p.depth as int, a, b, c);
            if p.index(a, b, c) == i {
                lemma_voxel_index_injective(p.width as int, p.height as int, a, b, c, x as int, y as int, z as int);
            }
        }
    }
}

/// Whether voxels `x0..=x1` of row `y` in layer `z` are all of `material` and not taken.
fn row_free(
    tested: &Vec<bool>,
    part: &Part,
    material: Material,
    x0: u8,
    x1: u8,
    y: u8,
    z: u8,
) -> (res: bool)
    requires
        x0 <= x1,
        part.deep_view().contains(x1 as int, y as int, z as int),
        part.deep_view().has_all_voxels(),
        tested@.len() == part.deep_view().size(),
    ensures
        res == forall|x: int|
            x0 <= x <= x1 ==> #[trigger] part.deep_view().material(x, y as int, z as int) == material
                && !taken(tested@, part.deep_view(), x, y as int, z as int),
{
    let mut x = x0;
    loop
        invariant
            x0 <= x <= x1,
            part.deep_view().contains(x1 as int, y as int, z as int),
            part.deep_view().has_all_voxels(),
            tested@.len() == part.deep_view().size(),
            forall|a: int|
                x0 <= a < x ==> #[trigger] part.deep_view().material(a, y as int, z as int) == material
                    && !taken(tested@, part.deep_view(), a, y as int, z as int),
        decreases x1 - x,
    {
        let pos = VoxelPos::new(x, y, z);
        if part.get(pos) != material || is_taken(tested, part, x, y, z) {
            return false;
        }
        if x == x1 {
            return true;
        }
        x = x + 1;
    }
}

/// Records voxels `x0..=x1` of row `y` in layer `z` as taken; no other record changes.
fn take_row(tested: &mut Vec<bool>, part: &Part, x0: u8, x1: u8, y: u8, z: u8)
    requires
        x0 <= x1,
        part.deep_view().contains(x1 as int, y as int, z as int),
        old(tested)@.len() == part.deep_view().size(),
    ensures
        final(tested)@.len() == old(tested)@.len(),
        forall|a: int, b: int, c: int|
            part.deep_view().contains(a, b, c) ==> #[trigger] taken(final(tested)@, part.deep_view(), a, b, c)
                == (taken(old(tested)@, part.deep_view(), a, b, c) || (x0 <= a <= x1 && b == y
                && c == z)),
{
    let mut x = x0;
    loop
        invariant
            x0 <= x <= x1,
            part.deep_view().contains(x1 as int, y as int, z as int),
            tested@.len() == part.deep_view().size(),
            old(tested)@.len() == part.deep_view().size(),
            forall|a: int, b: int, c: int|
                part.deep_view().contains(a, b, c) ==> #[trigger] taken(tested@, part.deep_view(), a, b, c)
                    == (taken(old(tested)@, part.deep_view(), a, b, c) || (x0 <= a < x && b == y
                    && c == z)),
        decreases x1 - x,
    {
        take(tested, part, x, y, z);
        if x == x1 {
            return;
        }
        x = x + 1;
    }
}

/// Whether rows `y0..=y1` over `x0..=x1` in layer `z` are all of `material` and not taken.
fn rect_free(
    tested: &Vec<bool>,
    part: &Part,
    material: Material,
    x0: u8,
    x1: u8,
    y0: u8,
    y1: u8,
    z: u8,
) -> (res: bool)
    requires
        x0 <= x1,
        y0 <= y1,
        part.deep_view().contains(x1 as int, y1 as int, z as int),
        part.deep_view().has_all_voxels(),
        tested@.len() == part.deep_view().size(),
    ensures
        res == forall|x: int, y: int|
            x0 <= x <= x1 && y0 <= y <= y1 ==> #[trigger] part.deep_view().material(x, y, z as int)
                == material && !taken(tested@, part.deep_view(), x, y, z as int),
{
    let mut y = y0;
    loop
        invariant
            y0 <= y <= y1,
            x0 <= x1,
            part.deep_view().contains(x1 as int, y1 as int, z as int),
            part.deep_view().has_all_voxels(),
            tested@.len() == part.deep_view().size(),
            forall|a: int, b: int|
                x0 <= a <= x1 && y0 <= b < y ==> #[trigger] part.deep_view().material(a, b, z as int)
                    == material && !taken(tested@, part.deep_view(), a, b, z as int),
        decreases y1 - y,
    {
        if !row_free(tested, part, material, x0, x1, y, z) {
            return false;
        }
        if y == y1 {
            return true;
        }
        y = y + 1;
    }
}

/// Records rows `y0..=y1` over `x0..=x1` in layer `z` as taken; no other record changes.
fn take_rect(tested: &mut Vec<bool>, part: &Part, x0: u8, x1: u8, y0: u8, y1: u8, z: u8)
    requires
        x0 <= x1,
        y0 <= y1,
        part.deep_view().contains(x1 as int, y1 as int, z as int),
        old(tested)@.len() == part.deep_view().size(),
    ensures
        final(tested)@.len() == old(tested)@.len(),
        forall|a: int, b: int, c: int|
            part.deep_view().contains(a, b, c) ==> #[trigger] taken(final(tested)@, part.deep_view(), a, b, c)
                == (taken(old(tested)@, part.deep_view(), a, b, c) || (x0 <= a <= x1 && y0 <= b <= y1
                && c == z)),
{
    let mut y = y0;
    loop
        invariant
            y0 <= y <= y1,
            x0 <= x1,
            part.deep_view().contains(x1 as int, y1 as int, z as int),
            tested@.len() == part.deep_view().size(),
            old(tested)@.len() == part.deep_view().size(),
            forall|a: int, b: int, c: int|
                part.deep_view().contains(a, b, c) ==> #[trigger] taken(tested@, part.deep_view(), a, b, c)
                    == (taken(old(tested)@, part.deep_view(), a, b, c) || (x0 <= a <= x1 && y0 <= b < y
                    && c == z)),
        decreases y1 - y,
    {
        take_row(tested, part, x0, x1, y, z);
        if y == y1 {
            return;
        }
        y = y + 1;
    }
}

/// Grows a box from the taken voxel `(sx, sy, sz)` along `x` over voxels of
/// `material` not yet taken, takes them, and returns the last `x` reached.
fn extend_x(tested: &mut Vec<bool>, part: &Part, material: Material, sx: u8, sy: u8, sz: u8) -> (ex: u8)
    requires
        part.deep_view().contains(sx as int, sy as int, sz as int),
        part.deep_view().has_all_voxels(),
        old(tested)@.len() == part.deep_view().size(),
    ensures
        final(tested)@.len() == old(tested)@.len(),
        sx <= ex < part.deep_view().width,
        forall|a: int|
            sx < a <= ex ==> #[trigger] part.deep_view().material(a, sy as int, sz as int) == material
                && !taken(old(tested)@, part.deep_view(), a, sy as int, sz as int),
        ex + 1 < part.deep_view().width ==> !(part.deep_view().material(ex + 1, sy as int, sz as int)
            == material && !taken(old(tested)@, part.deep_view(), ex + 1, sy as int, sz as int)),
        forall|a: int, b: int, c: int|
            part.deep_view().contains(a, b, c) ==> #[trigger] taken(final(tested)@, part.deep_view(), a, b, c)
                == (taken(old(tested)@, part.deep_view(), a, b, c) || (sx < a <= ex && b == sy
                && c == sz)),
{
    let ghost p = part.deep_view();
    let width = part.width();
    let mut x = sx + 1;
    loop
        invariant
            sx < x <= width,
            width == p.width,
            p == part.deep_view(),
            p.contains(sx as int, sy as int, sz as int),
            p.has_all_voxels(),
            tested@.len() == p.size(),
            old(tested)@.len() == p.size(),
            forall|a: int|
                sx < a < x ==> #[trigger] p.material(a, sy as int, sz as int) == material
                    && !taken(old(tested)@, p, a, sy as int, sz as int),
            forall|a: int, b: int, c: int|
                p.contains(a, b, c) ==> #[trigger] taken(tested@, p, a, b, c) == (taken(
                    old(tested)@,
                    p,
                    a,
                    b,
                    c,
                ) || (sx < a < x && b == sy && c == sz)),
        decreases width - x,
    {
        if x == width {
            return x - 1;
        }
        let pos = VoxelPos::new(x, sy, sz);
        if part.get(pos) != material || is_taken(tested, part, x, sy, sz) {
            proof {
                assert(taken(tested@, p, x as int, sy as int, sz as int) == taken(old(tested)@, p, x as int, sy as int, sz as int));
            }
            return x - 1;
        }
        take(tested, part, x, sy, sz);
        x = x + 1;
    }
}

/// Grows the row `sx..=ex` of layer `sz` from row `sy` along `y`, row by row, over
/// rows wholly of `material` and not yet taken, takes them, and returns the last
/// row reached.
fn extend_y(
    tested: &mut Vec<bool>,
    part: &Part,
    material: Material,
    sx: u8,
    ex: u8,
    sy: u8,
    sz: u8,
) -> (ey: u8)
    requires
        sx <= ex,
        part.deep_view().contains(ex as int, sy as int, sz as int),
        part.deep_view().has_all_voxels(),
        old(tested)@.len() == part.deep_view().size(),
    ensures
        final(tested)@.len() == old(tested)@.len(),
        sy <= ey < part.deep_view().height,
        forall|a: int, b: int|
            sx <= a <= ex && sy < b <= ey ==> #[trigger] part.deep_view().material(a, b, sz as int)
                == material && !taken(old(tested)@, part.deep_view(), a, b, sz as int),
        ey + 1 < part.deep_view().height ==> !(forall|a: int|
            sx <= a <= ex ==> #[trigger] part.deep_view().material(a, ey + 1, sz as int) == material
                && !taken(old(tested)@, part.deep_view(), a, ey + 1, sz as int)),
        forall|a: int, b: int, c: int|
            part.deep_view().contains(a, b, c) ==> #[trigger] taken(final(tested)@, part.deep_view(), a, b, c)
                == (taken(old(tested)@, part.deep_view(), a, b, c) || (sx <= a <= ex && sy < b <= ey
                && c == sz)),
{
    let ghost p = part.deep_view();
    let height = part.height();
    let mut y = sy + 1;
    loop
        invariant
            sy < y <= height,
            sx <= ex,
            height == p.height,
            p == part.deep_view(),
            p.contains(ex as int, sy as int, sz as int),
            p.has_all_voxels(),
            tested@.len() == p.size(),
            old(tested)@.len() == p.size(),
            forall|a: int, b: int|
                sx <= a <= ex && sy < b < y ==> #[trigger] p.material(a, b, sz as int) == material
                    && !taken(old(tested)@, p, a, b, sz as int),
            forall|a: int, b: int, c: int|
                p.contains(a, b, c) ==> #[trigger] taken(tested@, p, a, b, c) == (taken(
                    old(tested)@,
                    p,
                    a,
                    b,
                    c,
                ) || (sx <= a <= ex && sy < b < y && c == sz)),
        decreases height - y,
    {
        if y == height {
            return y - 1;
        }
        if !row_free(tested, part, material, sx, ex, y, sz) {
            proof {
                assert forall|a: int|
                    sx <= a <= ex implies (#[trigger] p.material(a, y as int, sz as int) == material
                        && !taken(tested@, p, a, y as int, sz as int)) == (p.material(a, y as int, sz as int)
                        == material && !taken(old(tested)@, p, a, y as int, sz as int)) by {
                    assert(taken(tested@, p, a, y as int, sz as int) == taken(old(tested)@, p, a, y as int, sz as int));
                }
            }
            return y - 1;
        }
        proof {
            assert forall|a: int| sx <= a <= ex implies !taken(old(tested)@, p, a, y as int, sz as int) by {
                assert(p.material(a, y as int, sz as int) == material);
                assert(taken(tested@, p, a, y as int, sz as int) == taken(old(tested)@, p, a, y as int, sz as int));
            }
        }
        take_row(tested, part, sx, ex, y, sz);
        y = y + 1;
    }
}

/// Grows the rectangle `sx..=ex` by `sy..=ey` of layer `sz` along `z`, layer by
/// layer, over rectangles wholly of `material` and not yet taken, takes them, and
/// returns the last layer reached.
fn extend_z(
    tested: &mut Vec<bool>,
    part: &Part,
    material: Material,
    sx: u8,
    ex: u8,
    sy: u8,
    ey: u8,
    sz: u8,
) -> (ez: u8)
    requires
        sx <= ex,
        sy <= ey,
        part.deep_view().contains(ex as int, ey as int, sz as int),
        part.deep_view().has_all_voxels(),
        old(tested)@.len() == part.deep_view().size(),
    ensures
        final(tested)@.len() == old(tested)@.len(),
        sz <= ez < part.deep_view().depth,
        forall|a: int, b: int, c: int|
            sx <= a <= ex && sy <= b <= ey && sz < c <= ez ==> #[trigger] part.deep_view().material(a, b, c)
                == material && !taken(old(tested)@, part.deep_view(), a, b, c),
        ez + 1 < part.deep_view().depth ==> !(forall|a: int, b: int|
            sx <= a <= ex && sy <= b <= ey ==> #[trigger] part.deep_view().material(a, b, ez + 1)
                == material && !taken(old(tested)@, part.deep_view(), a, b, ez + 1)),
        forall|a: int, b: int, c: int|
            part.deep_view().contains(a, b, c) ==> #[trigger] taken(final(tested)@, part.deep_view(), a, b, c)
                == (taken(old(tested)@, part.deep_view(), a, b, c) || (sx <= a <= ex && sy <= b <= ey
                && sz < c <= ez)),
{
    let ghost p = part.deep_view();
    let depth = part.depth();
    let mut z = sz + 1;
    loop
        invariant
            sz < z <= depth,
            sx <= ex,
            sy <= ey,
            depth == p.depth,
            p == part.deep_view(),
            p.contains(ex as int, ey as int, sz as int),
            p.has_all_voxels(),
            tested@.len() == p.size(),
            old(tested)@.len() == p.size(),
            forall|a: int, b: int, c: int|
                sx <= a <= ex && sy <= b <= ey && sz < c < z ==> #[trigger] p.material(a, b, c) == material
                    && !taken(old(tested)@, p, a, b, c),
            forall|a: int, b: int, c: int|
                p.contains(a, b, c) ==> #[trigger] taken(tested@, p, a, b, c) == (taken(
                    old(tested)@,
                    p,
                    a,
                    b,
                    c,
                ) || (sx <= a <= ex && sy <= b <= ey && sz < c < z)),
        decreases depth - z,
    {
        if z == depth {
            return z - 1;
        }
        if !rect_free(tested, part, material, sx, ex, sy, ey, z) {
            proof {
                assert forall|a: int, b: int|
                    sx <= a <= ex && sy <= b <= ey implies (#[trigger] p.material(a, b, z as int) == material
                        && !taken(tested@, p, a, b, z as int)) == (p.material(a, b, z as int) == material
                        && !taken(old(tested)@, p, a, b, z as int)) by {
                    assert(taken(tested@, p, a, b, z as int) == taken(old(tested)@, p, a, b, z as int));
                }
            }
            return z - 1;
        }
        proof {
            assert forall|a: int, b: int| sx <= a <= ex && sy <= b <= ey implies !taken(
                old(tested)@,
                p,
                a,
                b,
                z as int,
            ) by {
                assert(p.material(a, b, z as int) == material);
                assert(taken(tested@, p, a, b, z as int) == taken(old(tested)@, p, a, b, z as int));
            }
        }
        take_rect(tested, part, sx, ex, sy, ey, z);
        z = z + 1;
    }
}

/// What holds while the scan stands at voxel `(sx, sy, sz)`: the boxes made so far
/// fit the part and are apart, every voxel in them is taken, every taken voxel is
/// empty or in a box, and every voxel scanned before is taken.
pub open spec fn scan_state(p: PartView, t: Seq<bool>, boxes: Seq<VoxelBox>, sx: int, sy: int, sz: int) -> bool {
    &&& t.len() == p.size()
    &&& forall|k: int| 0 <= k < boxes.len() ==> #[trigger] boxes[k].fits(p)
    &&& forall|k1: int, k2: int|
        0 <= k1 < boxes.len() && 0 <= k2 < boxes.len() && k1 != k2 ==> #[trigger] boxes[k1].apart(
            #[trigger] boxes[k2],
        )
    &&& forall|k: int, x: int, y: int, z: int|
        0 <= k < boxes.len() && #[trigger] boxes[k].contains(x, y, z) ==> taken(t, p, x, y, z)
    &&& forall|x: int, y: int, z: int|
        p.contains(x, y, z) && #[trigger] taken(t, p, x, y, z) ==> p.material(x, y, z) == Material::Empty
            || covered(boxes, x, y, z)
    &&& forall|x: int, y: int, z: int|
        p.contains(x, y, z) && scanned_before(x, y, z, sx, sy, sz) ==> #[trigger] taken(t, p, x, y, z)
}

/// Adding a box made of voxels that were not taken, and taking them, keeps the
/// scan's state.
proof fn lemma_add_box(
    p: PartView,
    before: Seq<bool>,
    after: Seq<bool>,
    boxes: Seq<VoxelBox>,
    nb: VoxelBox,
    sx: int,
    sy: int,
    sz: int,
)
    requires
        scan_state(p, before, boxes, sx, sy, sz),
        nb.fits(p),
        nb.min.x == sx && nb.min.y == sy && nb.min.z == sz,
        after.len() == before.len(),
        forall|x: int, y: int, z: int|
            #[trigger] nb.contains(x, y, z) ==> !taken(before, p, x, y, z),
        forall|x: int, y: int, z: int|
            p.contains(x, y, z) ==> #[trigger] taken(after, p, x, y, z) == (taken(before, p, x, y, z)
                || nb.contains(x, y, z)),
    ensures
        scan_state(p, after, boxes.push(nb), sx + 1, sy, sz),
{
    let nbs = boxes.push(nb);
    assert forall|k: int| 0 <= k < nbs.len() implies #[trigger] nbs[k].fits(p) by {
        if k < boxes.len() {
            assert(nbs[k] == boxes[k]);
        }
    }
    assert forall|k: int| 0 <= k < boxes.len() implies #[trigger] boxes[k].apart(nb) && nb.apart(boxes[k]) by {
        let b = boxes[k];
        assert(b.fits(p));
        if !b.apart(nb) {
            let cx: int = if b.min.x > nb.min.x { b.min.x as int } else { nb.min.x as int };
            let cy: int = if b.min.y > nb.min.y { b.min.y as int } else { nb.min.y as int };
            let cz: int = if b.min.z > nb.min.z { b.min.z as int } else { nb.min.z as int };
            assert(b.contains(cx, cy, cz));
            assert(nb.contains(cx, cy, cz));
            assert(taken(before, p, cx, cy, cz));
        }
    }
    assert forall|k1: int, k2: int|
        0 <= k1 < nbs.len() && 0 <= k2 < nbs.len() && k1 != k2 implies #[trigger] nbs[k1].apart(
            #[trigger] nbs[k2],
        ) by {
        if k1 < boxes.len() && k2 < boxes.len() {
            assert(nbs[k1] == boxes[k1] && nbs[k2] == boxes[k2]);
        } else if k1 < boxes.len() {
            assert(nbs[k1] == boxes[k1]);
            assert(nbs[k2] == nb);
            assert(boxes[k1].apart(nb));
        } else {
            assert(nbs[k2] == boxes[k2]);
            assert(nbs[k1] == nb);
            assert(boxes[k2].apart(nb));
            assert(nb.apart(boxes[k2]));
        }
    }
    assert forall|k: int, x: int, y: int, z: int|
        0 <= k < nbs.len() && #[trigger] nbs[k].contains(x, y, z) implies taken(after, p, x, y, z) by {
        if k < boxes.len() {
            assert(nbs[k] == boxes[k]);
            assert(boxes[k].fits(p));
            assert(taken(before, p, x, y, z));
        }
    }
    assert forall|x: int, y: int, z: int|
        p.contains(x, y, z) && #[trigger] taken(after, p, x, y, z) implies p.material(x, y, z)
        == Material::Empty || covered(nbs, x, y, z) by {
        if nb.contains(x, y, z) {
            assert(nbs[boxes.len() as int] == nb);
        } else if p.material(x, y, z) != Material::Empty {
            assert(taken(before, p, x, y, z));
            let k = choose|k: int| 0 <= k < boxes.len() && #[trigger] boxes[k].contains(x, y, z);
            assert(nbs[k] == boxes[k]);
        }
    }
    assert forall|x: int, y: int, z: int|
        p.contains(x, y, z) && scanned_before(x, y, z, sx + 1, sy, sz) implies #[trigger] taken(
        after,
        p,
        x,
        y,
        z,
    ) by {
        if !scanned_before(x, y, z, sx, sy, sz) {
            assert(nb.contains(x, y, z));
        } else {
            assert(taken(before, p, x, y, z));
        }
    }
}

/// Moving the scan to a voxel scanned no later than every voxel already behind it
/// keeps its state.
proof fn lemma_scan_moves(
    p: PartView,
    t: Seq<bool>,
    boxes: Seq<VoxelBox>,
    sx: int,
    sy: int,
    sz: int,
    nx: int,
    ny: int,
    nz: int,
)
    requires
        scan_state(p, t, boxes, sx, sy, sz),
        forall|x: int, y: int, z: int|
            p.contains(x, y, z) && scanned_before(x, y, z, nx, ny, nz) ==> scanned_before(
                x,
                y,
                z,
                sx,
                sy,
                sz,
            ),
    ensures
        scan_state(p, t, boxes, nx, ny, nz),
{
    assert forall|x: int, y: int, z: int|
        p.contains(x, y, z) && scanned_before(x, y, z, nx, ny, nz) implies #[trigger] taken(t, p, x, y, z) by {
        assert(scanned_before(x, y, z, sx, sy, sz));
    }
}

/// While the scan runs, a solid voxel is taken exactly when a box holds it.
proof fn lemma_taken_solid(
    p: PartView,
    t: Seq<bool>,
    boxes: Seq<VoxelBox>,
    sx: int,
    sy: int,
    sz: int,
    x: int,
    y: int,
    z: int,
)
    requires
        scan_state(p, t, boxes, sx, sy, sz),
        p.contains(x, y, z),
        p.material(x, y, z) != Material::Empty,
    ensures
        taken(t, p, x, y, z) == covered(boxes, x, y, z),
{
    if covered(boxes, x, y, z) {
        let k = choose|k: int| 0 <= k < boxes.len() && #[trigger] boxes[k].contains(x, y, z);
        assert(taken(t, p, x, y, z));
    }
}

/// Moving the scan on keeps what it knows of the boxes it made, as long as every
/// voxel behind it stays behind it.
proof fn lemma_greedy_moves(
    p: PartView,
    boxes: Seq<VoxelBox>,
    sx: int,
    sy: int,
    sz: int,
    nx: int,
    ny: int,
    nz: int,
)
    requires
        greedy_state(p, boxes, sx, sy, sz),
        forall|k: int| 0 <= k < boxes.len() ==> #[trigger] boxes[k].fits(p),
        forall|x: int, y: int, z: int|
            p.contains(x, y, z) && scanned_before(x, y, z, sx, sy, sz) ==> scanned_before(
                x,
                y,
                z,
                nx,
                ny,
                nz,
            ),
    ensures
        greedy_state(p, boxes, nx, ny, nz),
{
    assert forall|k: int| 0 <= k < boxes.len() implies scanned_before(
        #[trigger] boxes[k].min.x as int,
        boxes[k].min.y as int,
        boxes[k].min.z as int,
        nx,
        ny,
        nz,
    ) by {
        let b = boxes[k];
        assert(b.fits(p));
        assert(p.contains(b.min.x as int, b.min.y as int, b.min.z as int));
        assert(scanned_before(b.min.x as int, b.min.y as int, b.min.z as int, sx, sy, sz));
    }
}

/// The box the scan makes at `(sx, sy, sz)`, grown over voxels not taken before
/// it (`t`, then `t1`, `t2`, `t3` as it grows along `x`, `y`, `z`), joins the
/// boxes made the way the scan makes them.
proof fn lemma_greedy_add(
    p: PartView,
    t: Seq<bool>,
    t1: Seq<bool>,
    t2: Seq<bool>,
    t3: Seq<bool>,
    boxes: Seq<VoxelBox>,
    nb: VoxelBox,
)
    requires
        scan_state(p, t, boxes, nb.min.x as int, nb.min.y as int, nb.min.z as int),
        greedy_state(p, boxes, nb.min.x as int, nb.min.y as int, nb.min.z as int),
        nb.fits(p),
        forall|a: int, b: int, c: int|
            p.contains(a, b, c) ==> #[trigger] taken(t1, p, a, b, c) == (taken(t, p, a, b, c) || (a
                == nb.min.x && b == nb.min.y && c == nb.min.z)),
        forall|a: int, b: int, c: int|
            p.contains(a, b, c) ==> #[trigger] taken(t2, p, a, b, c) == (taken(t1, p, a, b, c) || (
            nb.min.x < a <= nb.max.x && b == nb.min.y && c == nb.min.z)),
        forall|a: int, b: int, c: int|
            p.contains(a, b, c) ==> #[trigger] taken(t3, p, a, b, c) == (taken(t2, p, a, b, c) || (
            nb.min.x <= a <= nb.max.x && nb.min.y < b <= nb.max.y && c == nb.min.z)),
        nb.max.x + 1 < p.width ==> !(p.material(nb.max.x + 1, nb.min.y as int, nb.min.z as int)
            == nb.material && !taken(t1, p, nb.max.x + 1, nb.min.y as int, nb.min.z as int)),
        nb.max.y + 1 < p.height ==> !(forall|a: int|
            nb.min.x <= a <= nb.max.x ==> #[trigger] p.material(a, nb.max.y + 1, nb.min.z as int)
                == nb.material && !taken(t2, p, a, nb.max.y + 1, nb.min.z as int)),
        nb.max.z + 1 < p.depth ==> !(forall|a: int, b: int|
            nb.min.x <= a <= nb.max.x && nb.min.y <= b <= nb.max.y ==> #[trigger] p.material(
                a,
                b,
                nb.max.z + 1,
            ) == nb.material && !taken(t3, p, a, b, nb.max.z + 1)),
    ensures
        greedy_state(p, boxes.push(nb), nb.min.x + 1, nb.min.y as int, nb.min.z as int),
{
    let (sx, sy, sz) = (nb.min.x as int, nb.min.y as int, nb.min.z as int);
    let nbs = boxes.push(nb);
    let n = boxes.len() as int;
    assert(nbs.take(n) =~= boxes);
    assert(nbs[n] == nb);
    // the new box starts at the first solid voxel no box holds
    assert forall|x: int, y: int, z: int|
        p.contains(x, y, z) && p.material(x, y, z) != Material::Empty && scanned_before(
            x,
            y,
            z,
            sx,
            sy,
            sz,
        ) implies #[trigger] covered(nbs.take(n), x, y, z) by {
        lemma_taken_solid(p, t, boxes, sx, sy, sz, x, y, z);
    }
    // it could grow no further along x
    if nb.max.x + 1 < p.width {
        let (x, y, z) = (nb.max.x + 1, sy, sz);
        if free_for(p, boxes, nb.material, x, y, z) {
            lemma_taken_solid(p, t, boxes, sx, sy, sz, x, y, z);
            assert(taken(t1, p, x, y, z) == taken(t, p, x, y, z));
        }
    }
    // nor along y
    if nb.max.y + 1 < p.height {
        let y = nb.max.y + 1;
        if forall|x: int| nb.min.x <= x <= nb.max.x ==> #[trigger] free_for(p, boxes, nb.material, x, y, sz) {
            assert forall|a: int| nb.min.x <= a <= nb.max.x implies #[trigger] p.material(a, y, sz)
                == nb.material && !taken(t2, p, a, y, sz) by {
                assert(free_for(p, boxes, nb.material, a, y, sz));
                lemma_taken_solid(p, t, boxes, sx, sy, sz, a, y, sz);
                assert(taken(t1, p, a, y, sz) == taken(t, p, a, y, sz));
            }
        }
    }
    // nor along z
    if nb.max.z + 1 < p.depth {
        let z = nb.max.z + 1;
        if forall|x: int, y: int|
            nb.min.x <= x <= nb.max.x && nb.min.y <= y <= nb.max.y ==> #[trigger] free_for(
                p,
                boxes,
                nb.material,
                x,
                y,
                z,
            ) {
            assert forall|a: int, b: int| nb.min.x <= a <= nb.max.x && nb.min.y <= b <= nb.max.y implies #[trigger] p.material(
                a,
                b,
                z,
            ) == nb.material && !taken(t3, p, a, b, z) by {
                assert(free_for(p, boxes, nb.material, a, b, z));
                lemma_taken_solid(p, t, boxes, sx, sy, sz, a, b, z);
                assert(taken(t1, p, a, b, z) == taken(t, p, a, b, z));
                assert(taken(t2, p, a, b, z) == taken(t1, p, a, b, z));
            }
        }
    }
    assert(grown_greedily(p, nbs, n));
    assert forall|k: int| 0 <= k < nbs.len() implies #[trigger] grown_greedily(p, nbs, k) by {
        if k < n {
            assert(nbs.take(k) =~= boxes.take(k));
            assert(nbs[k] == boxes[k]);
            assert(grown_greedily(p, boxes, k));
        }
    }
    assert forall|i: int, j: int| 0 <= i < j < nbs.len() implies scanned_before(
        #[trigger] nbs[i].min.x as int,
        nbs[i].min.y as int,
        nbs[i].min.z as int,
        #[trigger] nbs[j].min.x as int,
        nbs[j].min.y as int,
        nbs[j].min.z as int,
    ) by {
        assert(nbs[i] == boxes[i]);
        if j < n {
            assert(nbs[j] == boxes[j]);
        }
    }
    assert forall|k: int| 0 <= k < nbs.len() implies scanned_before(
        #[trigger] nbs[k].min.x as int,
        nbs[k].min.y as int,
        nbs[k].min.z as int,
        sx + 1,
        sy,
        sz,
    ) by {
        if k < n {
            assert(nbs[k] == boxes[k]);
        }
    }
}

/// A voxel of box `k` lies in no box before it.
proof fn lemma_not_covered_before(p: PartView, boxes: Seq<VoxelBox>, k: int, x: int, y: int, z: int)
    requires
        splits_solid_voxels(p, boxes),
        0 <= k < boxes.len(),
        boxes[k].contains(x, y, z),
    ensures
        !covered(boxes.take(k), x, y, z),
{
    if covered(boxes.take(k), x, y, z) {
        let j = choose|j: int| 0 <= j < boxes.take(k).len() && #[trigger] boxes.take(k)[j].contains(x, y, z);
        assert(boxes.take(k)[j] == boxes[j]);
        assert(boxes[j].apart(boxes[k]));
    }
}

/// Box `k` of a split the scan makes is free for its material over all its voxels,
/// given the boxes before it.
proof fn lemma_box_free(p: PartView, boxes: Seq<VoxelBox>, k: int)
    requires
        splits_solid_voxels(p, boxes),
        0 <= k < boxes.len(),
    ensures
        forall|x: int, y: int, z: int|
            #[trigger] boxes[k].contains(x, y, z) ==> free_for(p, boxes.take(k), boxes[k].material, x, y, z),
{
    let b = boxes[k];
    assert(b.fits(p));
    assert forall|x: int, y: int, z: int| #[trigger] b.contains(x, y, z) implies free_for(
        p,
        boxes.take(k),
        b.material,
        x,
        y,
        z,
    ) by {
        lemma_not_covered_before(p, boxes, k, x, y, z);
    }
}

/// Two splits the scan could make of a part, equal up to box `k`, make the same
/// box `k`, or both end there.
proof fn lemma_next_box_determined(p: PartView, a: Seq<VoxelBox>, b: Seq<VoxelBox>, k: int)
    requires
        scan_split(p, a),
        scan_split(p, b),
        0 <= k,
        k <= a.len(),
        k <= b.len(),
        a.take(k) == b.take(k),
    ensures
        k < a.len() <==> k < b.len(),
        k < a.len() ==> a[k] == b[k],
{
    if k < a.len() {
        let m = a[k].min;
        assert(a[k].fits(p));
        assert(a[k].contains(m.x as int, m.y as int, m.z as int));
        lemma_not_covered_before(p, a, k, m.x as int, m.y as int, m.z as int);
        if k == b.len() {
            assert(b.take(k) =~= b);
            assert(covered(b, m.x as int, m.y as int, m.z as int));
        }
    }
    if k < b.len() {
        let m = b[k].min;
        assert(b[k].fits(p));
        assert(b[k].contains(m.x as int, m.y as int, m.z as int));
        lemma_not_covered_before(p, b, k, m.x as int, m.y as int, m.z as int);
        if k == a.len() {
            assert(a.take(k) =~= a);
            assert(covered(a, m.x as int, m.y as int, m.z as int));
        }
    }
    if k < a.len() && k < b.len() {
        let (ba, bb) = (a[k], b[k]);
        let earlier = a.take(k);
        assert(ba.fits(p) && bb.fits(p));
        assert(grown_greedily(p, a, k) && grown_greedily(p, b, k));
        assert(ba.contains(ba.min.x as int, ba.min.y as int, ba.min.z as int));
        assert(bb.contains(bb.min.x as int, bb.min.y as int, bb.min.z as int));
        lemma_not_covered_before(p, a, k, ba.min.x as int, ba.min.y as int, ba.min.z as int);
        lemma_not_covered_before(p, b, k, bb.min.x as int, bb.min.y as int, bb.min.z as int);
        // the same start: the first solid voxel no earlier box holds
        assert(ba.min == bb.min);
        let (sx, sy, sz) = (ba.min.x as int, ba.min.y as int, ba.min.z as int);
        assert(ba.material == bb.material);
        lemma_box_free(p, a, k);
        lemma_box_free(p, b, k);
        // the same reach along x
        if ba.max.x < bb.max.x {
            assert(bb.contains(ba.max.x + 1, sy, sz));
        }
        if bb.max.x < ba.max.x {
            assert(ba.contains(bb.max.x + 1, sy, sz));
        }
        assert(ba.max.x == bb.max.x);
        // along y
        if ba.max.y < bb.max.y {
            assert forall|x: int| ba.min.x <= x <= ba.max.x implies #[trigger] free_for(
                p,
                earlier,
                ba.material,
                x,
                ba.max.y + 1,
                sz,
            ) by {
                assert(bb.contains(x, ba.max.y + 1, sz));
            }
        }
        if bb.max.y < ba.max.y {
            assert forall|x: int| bb.min.x <= x <= bb.max.x implies #[trigger] free_for(
                p,
                earlier,
                bb.material,
                x,
                bb.max.y + 1,
                sz,
            ) by {
                assert(ba.contains(x, bb.max.y + 1, sz));
            }
        }
        assert(ba.max.y == bb.max.y);
        // along z
        if ba.max.z < bb.max.z {
            assert forall|x: int, y: int|
                ba.min.x <= x <= ba.max.x && ba.min.y <= y <= ba.max.y implies #[trigger] free_for(
                p,
                earlier,
                ba.material,
                x,
                y,
                ba.max.z + 1,
            ) by {
                assert(bb.contains(x, y, ba.max.z + 1));
            }
        }
        if bb.max.z < ba.max.z {
            assert forall|x: int, y: int|
                bb.min.x <= x <= bb.max.x && bb.min.y <= y <= bb.max.y implies #[trigger] free_for(
                p,
                earlier,
                bb.material,
                x,
                y,
                bb.max.z + 1,
            ) by {
                assert(ba.contains(x, y, bb.max.z + 1));
            }
        }
        assert(ba.max.z == bb.max.z);
    }
}

/// Two splits the scan could make of a part, equal up to box `k`, are equal.
proof fn lemma_equal_from(p: PartView, a: Seq<VoxelBox>, b: Seq<VoxelBox>, k: int)
    requires
        scan_split(p, a),
        scan_split(p, b),
        0 <= k <= a.len(),
        k <= b.len(),
        a.take(k) == b.take(k),
    ensures
        a == b,
    decreases a.len() - k,
{
    lemma_next_box_determined(p, a, b, k);
    if k < a.len() {
        assert(a.take(k + 1) =~= a.take(k).push(a[k]));
        assert(b.take(k + 1) =~= b.take(k).push(b[k]));
        lemma_equal_from(p, a, b, k + 1);
    } else {
        assert(a.take(k) =~= a);
        assert(b.take(k) =~= b);
    }
}

/// A part has one split the scan can make: two splits of the same part that both
/// meet `scan_split` are the same boxes in the same order.
pub proof fn lemma_scan_split_unique(p: PartView, a: Seq<VoxelBox>, b: Seq<VoxelBox>)
    requires
        scan_split(p, a),
        scan_split(p, b),
    ensures
        a == b,
{
    assert(a.take(0) =~= b.take(0));
    lemma_equal_from(p, a, b, 0);
}

/// Splits the solid voxels of a part into boxes of one material each, as the
/// scan described above finds them: the boxes meet `scan_split`, which leaves no
/// choice (`lemma_scan_split_unique`).
pub fn collider_boxes(part: &Part) -> (boxes: Vec<VoxelBox>)
    requires
        part.deep_view().has_all_voxels(),
    ensures
        scan_split(part.deep_view(), boxes@),
{
    let ghost p = part.deep_view();
    let size = part.size() as usize;
    let mut tested: Vec<bool> = Vec::new();
    let mut i: usize = 0;
    while i < size
        invariant
            i <= size,
            size == p.size(),
            tested@.len() == i,
            forall|j: int| 0 <= j < i ==> !#[trigger] tested@[j],
        decreases size - i,
    {
        tested.push(false);
        i = i + 1;
    }
    let mut boxes: Vec<VoxelBox> = Vec::new();
    proof {
        assert forall|x: int, y: int, z: int| p.contains(x, y, z) implies !#[trigger] taken(tested@, p, x, y, z) by {
            lemma_voxel_index_bounds(p.width as int, p.height as int, p.depth as int, x, y, z);
        }
        assert(scan_state(p, tested@, boxes@, 0, 0, 0));
    }
    let width = part.width();
    let height = part.height();
    let depth = part.depth();
    let mut sz: u8 = 0;
    while sz < depth
        invariant
            p == part.deep_view(),
            p.has_all_voxels(),
            width == p.width && height == p.height && depth == p.depth,
            sz <= depth,
            scan_state(p, tested@, boxes@, 0, 0, sz as int),
            greedy_state(p, boxes@, 0, 0, sz as int),
        decreases depth - sz,
    {
        let mut sy: u8 = 0;
        while sy < height
            invariant
                p == part.deep_view(),
                p.has_all_voxels(),
                width == p.width && height == p.height && depth == p.depth,
                sz < depth,
                sy <= height,
                scan_state(p, tested@, boxes@, 0, sy as int, sz as int),
                greedy_state(p, boxes@, 0, sy as int, sz as int),
            decreases height - sy,
        {
            let mut sx: u8 = 0;
            while sx < width
                invariant
                    p == part.deep_view(),
                    p.has_all_voxels(),
                    width == p.width && height == p.height && depth == p.depth,
                    sz < depth,
                    sy < height,
                    sx <= width,
                    scan_state(p, tested@, boxes@, sx as int, sy as int, sz as int),
                    greedy_state(p, boxes@, sx as int, sy as int, sz as int),
                decreases width - sx,
            {
                if !is_taken(&tested, part, sx, sy, sz) {
                    let material = part.get(VoxelPos::new(sx, sy, sz));
                    if material == Material::Empty {
                        let ghost before = tested@;
                        take(&mut tested, part, sx, sy, sz);
                        proof {
                            lemma_greedy_moves(p, boxes@, sx as int, sy as int, sz as int, sx + 1, sy as int, sz as int);
                            assert forall|x: int, y: int, z: int|
                                p.contains(x, y, z) && #[trigger] taken(tested@, p, x, y, z) implies p.material(x, y, z)
                                == Material::Empty || covered(boxes@, x, y, z) by {
                                if !(x == sx && y == sy && z == sz) {
                                    assert(taken(before, p, x, y, z));
                                }
                            }
                            assert forall|k: int, x: int, y: int, z: int|
                                0 <= k < boxes@.len() && #[trigger] boxes@[k].contains(x, y, z) implies taken(
                                tested@,
                                p,
                                x,
                                y,
                                z,
                            ) by {
                                assert(boxes@[k].fits(p));
                                assert(taken(before, p, x, y, z));
                            }
                            assert forall|x: int, y: int, z: int|
                                p.contains(x, y, z) && scanned_before(x, y, z, sx + 1, sy as int, sz as int) implies #[trigger] taken(
                                tested@,
                                p,
                                x,
                                y,
                                z,
                            ) by {
                                if scanned_before(x, y, z, sx as int, sy as int, sz as int) {
                                    assert(taken(before, p, x, y, z));
                                }
                            }
                        }
                    } else {
                        let ghost before = tested@;
                        take(&mut tested, part, sx, sy, sz);
                        let ghost t1 = tested@;
                        let ex = extend_x(&mut tested, part, material, sx, sy, sz);
                        let ghost t2 = tested@;
                        let ey = extend_y(&mut tested, part, material, sx, ex, sy, sz);
                        let ghost t3 = tested@;
                        let ez = extend_z(&mut tested, part, material, sx, ex, sy, ey, sz);
                        let nb = VoxelBox {
                            min: VoxelPos::new(sx, sy, sz),
                            max: VoxelPos::new(ex, ey, ez),
                            material,
                        };
                        proof {
                            assert forall|x: int, y: int, z: int| #[trigger] nb.contains(x, y, z) implies p.material(x, y, z)
                                == material && !taken(before, p, x, y, z) by {
                                if x == sx && y == sy && z == sz {
                                } else if y == sy && z == sz {
                                    assert(sx < x <= ex);
                                    assert(p.material(x, y, z) == material && !taken(t1, p, x, y, z));
                                } else if z == sz {
                                    assert(p.material(x, y, z) == material && !taken(t2, p, x, y, z));
                                    assert(taken(t2, p, x, y, z) == (taken(t1, p, x, y, z) || (sx < x <= ex && y == sy && z == sz)));
                                } else {
                                    assert(p.material(x, y, z) == material && !taken(t3, p, x, y, z));
                                    assert(taken(t3, p, x, y, z) == (taken(t2, p, x, y, z) || (sx <= x <= ex && sy < y <= ey && z == sz)));
                                    assert(taken(t2, p, x, y, z) == (taken(t1, p, x, y, z) || (sx < x <= ex && y == sy && z == sz)));
                                }
                            }
                            assert(nb.fits(p));
                            assert forall|x: int, y: int, z: int| p.contains(x, y, z) implies #[trigger] taken(
                                tested@,
                                p,
                                x,
                                y,
                                z,
                            ) == (taken(before, p, x, y, z) || nb.contains(x, y, z)) by {
                                assert(taken(t1, p, x, y, z) == (taken(before, p, x, y, z) || (x == sx && y == sy && z == sz)));
                                assert(taken(t2, p, x, y, z) == (taken(t1, p, x, y, z) || (sx < x <= ex && y == sy && z == sz)));
                                assert(taken(t3, p, x, y, z) == (taken(t2, p, x, y, z) || (sx <= x <= ex && sy < y <= ey && z == sz)));
                            }
                            lemma_greedy_add(p, before, t1, t2, t3, boxes@, nb);
                            lemma_add_box(p, before, tested@, boxes@, nb, sx as int, sy as int, sz as int);
                        }
                        boxes.push(nb);
                    }
                } else {
                    proof {
                        lemma_greedy_moves(p, boxes@, sx as int, sy as int, sz as int, sx + 1, sy as int, sz as int);
                        assert forall|x: int, y: int, z: int|
                            p.contains(x, y, z) && scanned_before(x, y, z, sx + 1, sy as int, sz as int) implies #[trigger] taken(
                            tested@,
                            p,
                            x,
                            y,
                            z,
                        ) by {
                            if scanned_before(x, y, z, sx as int, sy as int, sz as int) {
                            }
                        }
                    }
                }
                sx = sx + 1;
            }
            proof {
                lemma_scan_moves(p, tested@, boxes@, sx as int, sy as int, sz as int, 0, sy + 1, sz as int);
                lemma_greedy_moves(p, boxes@, sx as int, sy as int, sz as int, 0, sy + 1, sz as int);
            }
            sy = sy + 1;
        }
        proof {
            lemma_scan_moves(p, tested@, boxes@, 0, sy as int, sz as int, 0, 0, sz + 1);
            lemma_greedy_moves(p, boxes@, 0, sy as int, sz as int, 0, 0, sz + 1);
        }
        sz = sz + 1;
    }
    proof {
        assert forall|x: int, y: int, z: int|
            p.contains(x, y, z) && p.material(x, y, z) != Material::Empty implies #[trigger] covered(
            boxes@,
            x,
            y,
            z,
        ) by {
            assert(scanned_before(x, y, z, 0, 0, sz as int));
            assert(taken(tested@, p, x, y, z));
        }
    }
    boxes
}

} // verus!
