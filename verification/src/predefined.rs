//! The parts every client and server starts with.

use vstd::prelude::*;

use crate::materials::Material;
use crate::part::{Part, PartView};
use crate::store::{PartHandle, Parts, PartsView};

verus! {

/// A part of the given size made of aluminum through and through, copied from no other.
pub open spec fn solid_aluminum(width: u8, height: u8, depth: u8) -> PartView {
    PartView {
        width,
        height,
        depth,
        voxels: Seq::new((width * height * depth) as nat, |i: int| Material::Aluminum),
        parent_part_id: None,
    }
}

/// A list of `count` voxels, all of `material`.
fn filled(material: Material, count: usize) -> (voxels: Vec<Material>)
    ensures
        voxels@ == Seq::new(count as nat, |i: int| material),
{
    let mut voxels: Vec<Material> = Vec::new();
    let mut i: usize = 0;
    while i < count
        invariant
            i <= count,
            voxels@ == Seq::new(i as nat, |j: int| material),
        decreases count - i,
    {
        voxels.push(material);
        proof {
            assert(voxels@ =~= Seq::new((i + 1) as nat, |j: int| material));
        }
        i = i + 1;
    }
    voxels
}

/// Adds the built-in parts, each to stay for good: an aluminum cube ten voxels on
/// a side, then an aluminum prism two wide, one high and three deep. Returns a
/// handle to each, in that order.
pub fn add_hardcoded_parts(parts: &mut Parts) -> (part_handles: Vec<PartHandle>)
    requires
        old(parts)@.well_formed(),
        old(parts)@.next_id + 2 <= u32::MAX,
    ensures
        part_handles@.len() == 2,
        part_handles@[0].spec_id() == old(parts)@.next_id,
        part_handles@[1].spec_id() == old(parts)@.next_id + 1,
        final(parts)@ == (PartsView {
            parts: old(parts)@.parts.insert(old(parts)@.next_id, solid_aluminum(10, 10, 10)).insert(
                (old(parts)@.next_id + 1) as u32,
                solid_aluminum(2, 1, 3),
            ),
            next_id: (old(parts)@.next_id + 2) as u32,
            ref_counts: old(parts)@.ref_counts.insert(old(parts)@.next_id, 2).insert(
                (old(parts)@.next_id + 1) as u32,
                2,
            ),
        }),
        final(parts)@.well_formed(),
{
    let mut part_handles: Vec<PartHandle> = Vec::new();

    let aluminum_cube = Part::new(10, 10, 10, filled(Material::Aluminum, 10 * 10 * 10), None);
    part_handles.push(parts.add_static(aluminum_cube));

    let test_prism_2x1x3 = Part::new(2, 1, 3, filled(Material::Aluminum, 2 * 1 * 3), None);
    part_handles.push(parts.add_static(test_prism_2x1x3));

    part_handles
}

} // verus!
