//! Parts: boxes of voxels, each voxel of some material.

use vstd::prelude::*;

use crate::codec::{
    Decoded, PacketDeserialize, PacketRoundtrip, PacketSerialize, ReadOutcome, lemma_unread_advanced,
};
use crate::ids::PartId;
use crate::materials::Material;
use crate::packet::{max_packet_len, Packet};

verus! {

/// A voxel's position within a part, counted in voxels from one corner.
#[derive(Clone, Copy, Debug, PartialEq, Eq, Structural)]
pub struct VoxelPos {
    pub x: u8,
    pub y: u8,
    pub z: u8,
}

impl VoxelPos {
    pub fn new(x: u8, y: u8, z: u8) -> (pos: VoxelPos)
        ensures
            pos == (VoxelPos { x, y, z }),
    {
        VoxelPos { x, y, z }
    }
}

/// Where voxel `(x, y, z)` of a part `width` wide and `height` high stands in its
/// voxel list: layers along `z`, rows along `y` within a layer, `x` within a row.
pub open spec fn voxel_index(width: int, height: int, x: int, y: int, z: int) -> int {
    width * height * z + y * width + x
}

/// The index of an in-bounds voxel lies below the voxel count, and two in-bounds
/// voxels share an index only when they are the same voxel.
pub proof fn lemma_voxel_index_bounds(w: int, h: int, d: int, x: int, y: int, z: int)
    requires
        0 <= x < w,
        0 <= y < h,
        0 <= z < d,
    ensures
        0 <= voxel_index(w, h, x, y, z) < w * h * d,
{
    assert(0 <= voxel_index(w, h, x, y, z) < w * h * d) by (nonlinear_arith)
        requires
            0 <= x < w,
            0 <= y < h,
            0 <= z < d,
    ;
}

pub proof fn lemma_voxel_index_injective(
    w: int,
    h: int,
    x1: int,
    y1: int,
    z1: int,
    x2: int,
    y2: int,
    z2: int,
)
    requires
        0 <= x1 < w,
        0 <= y1 < h,
        0 <= z1,
        0 <= x2 < w,
        0 <= y2 < h,
        0 <= z2,
        voxel_index(w, h, x1, y1, z1) == voxel_index(w, h, x2, y2, z2),
    ensures
        x1 == x2 && y1 == y2 && z1 == z2,
{
    let r1 = y1 * w + x1;
    let r2 = y2 * w + x2;
    assert(0 <= r1 < w * h && 0 <= r2 < w * h) by (nonlinear_arith)
        requires
            0 <= x1 < w,
            0 <= y1 < h,
            0 <= x2 < w,
            0 <= y2 < h,
            r1 == y1 * w + x1,
            r2 == y2 * w + x2,
    ;
    assert(z1 == z2) by (nonlinear_arith)
        requires
            0 <= r1 < w * h,
            0 <= r2 < w * h,
            0 <= z1,
            0 <= z2,
            w * h * z1 + r1 == w * h * z2 + r2,
    ;
    assert(y1 == y2) by (nonlinear_arith)
        requires
            0 <= x1 < w,
            0 <= x2 < w,
            0 <= y1,
            0 <= y2,
            y1 * w + x1 == y2 * w + x2,
    ;
}

/// Voxels are listed `x` first within a row, rows along `y` within a layer, and
/// layers along `z`: voxel `(0, 0, 0)` comes first, and a step along `x`, `y` or `z`
/// moves one place, a row of `width` places, or a layer of `width * height` places
/// on in the list.
pub proof fn lemma_voxel_index_steps(w: int, h: int, x: int, y: int, z: int)
    ensures
        voxel_index(w, h, 0, 0, 0) == 0,
        voxel_index(w, h, x + 1, y, z) == voxel_index(w, h, x, y, z) + 1,
        voxel_index(w, h, x, y + 1, z) == voxel_index(w, h, x, y, z) + w,
        voxel_index(w, h, x, y, z + 1) == voxel_index(w, h, x, y, z) + w * h,
{
    assert(w * h * (z + 1) == w * h * z + w * h) by (nonlinear_arith);
    assert((y + 1) * w == y * w + w) by (nonlinear_arith);
    assert(w * h * 0 + 0 * w == 0) by (nonlinear_arith);
}

/// What a part is: its size in voxels along each axis, its voxels, and the part it
/// was copied from, if any.
pub struct PartView {
    pub width: u8,
    pub height: u8,
    pub depth: u8,
    pub voxels: Seq<Material>,
    pub parent_part_id: Option<u32>,
}

impl PartView {
    /// The number of voxels its size calls for.
    pub open spec fn size(self) -> int {
        self.width * self.height * self.depth
    }

    pub open spec fn contains(self, x: int, y: int, z: int) -> bool {
        0 <= x < self.width && 0 <= y < self.height && 0 <= z < self.depth
    }

    pub open spec fn index(self, x: int, y: int, z: int) -> int {
        voxel_index(self.width as int, self.height as int, x, y, z)
    }

    /// The material at a voxel.
    pub open spec fn material(self, x: int, y: int, z: int) -> Material {
        self.voxels[self.index(x, y, z)]
    }

    /// Its voxel list holds a voxel for every position of its size.
    pub open spec fn has_all_voxels(self) -> bool {
        self.voxels.len() >= self.size()
    }
}

/// A box of voxels, each of some material.
#[derive(Clone, Debug)]
pub struct Part {
    width: u8,
    height: u8,
    depth: u8,
    voxels: Vec<Material>,
    parent_part_id: Option<PartId>,
}

impl DeepView for Part {
    type V = PartView;

    closed spec fn deep_view(&self) -> PartView {
        PartView {
            width: self.width,
            height: self.height,
            depth: self.depth,
            voxels: self.voxels@,
            parent_part_id: self.parent_part_id.deep_view(),
        }
    }
}

/// A copy of a list of materials.
fn copy_materials(materials: &[Material]) -> (copy: Vec<Material>)
    ensures
        copy@ == materials@,
{
    let mut copy: Vec<Material> = Vec::new();
    let mut i: usize = 0;
    while i < materials.len()
        invariant
            i <= materials.len(),
            copy@ == materials@.take(i as int),
        decreases materials.len() - i,
    {
        copy.push(materials[i]);
        proof {
            assert(materials@.take(i + 1) =~= materials@.take(i as int).push(materials@[i as int]));
        }
        i = i + 1;
    }
    proof {
        assert(materials@.take(i as int) =~= materials@);
    }
    copy
}

impl Part {
    pub fn new(
        width: u8,
        height: u8,
        depth: u8,
        voxels: Vec<Material>,
        parent_part_id: Option<PartId>,
    ) -> (part: Part)
        ensures
            part.deep_view() == (PartView {
                width,
                height,
                depth,
                voxels: voxels@,
                parent_part_id: parent_part_id.deep_view(),
            }),
    {
        Part { width, height, depth, voxels, parent_part_id }
    }

    /// Where a voxel stands in the voxel list.
    pub fn voxel_to_index(&self, x: u8, y: u8, z: u8) -> (index: usize)
        requires
            self.deep_view().contains(x as int, y as int, z as int),
        ensures
            index == self.deep_view().index(x as int, y as int, z as int),
            index < self.deep_view().size(),
    {
        let width = self.width as usize;
        let height = self.height as usize;
        let x = x as usize;
        let y = y as usize;
        let z = z as usize;
        proof {
            lemma_voxel_index_bounds(width as int, height as int, self.depth as int, x as int, y as int, z as int);
            assert(width * height * (self.depth as int) <= 255 * 255 * 255) by (nonlinear_arith)
                requires
                    width <= 255,
                    height <= 255,
                    self.depth <= 255,
            ;
            assert(width * height <= 255 * 255) by (nonlinear_arith)
                requires
                    width <= 255,
                    height <= 255,
            ;
            assert(width * height * z <= 255 * 255 * 255) by (nonlinear_arith)
                requires
                    width * height <= 255 * 255,
                    z <= 255,
            ;
            assert(y * width <= 255 * 255) by (nonlinear_arith)
                requires
                    width <= 255,
                    y <= 255,
            ;
        }
        width * height * z + y * width + x
    }

    pub open spec fn spec_voxel_is_in_part(&self, pos: VoxelPos) -> bool {
        self.deep_view().contains(pos.x as int, pos.y as int, pos.z as int)
    }

    /// Whether a position lies within the part.
    pub fn voxel_is_in_part(&self, pos: VoxelPos) -> (inside: bool)
        ensures
            inside == self.spec_voxel_is_in_part(pos),
    {
        pos.x < self.width && pos.y < self.height && pos.z < self.depth
    }

    /// The material at a voxel.
    pub fn get(&self, pos: VoxelPos) -> (material: Material)
        requires
            self.spec_voxel_is_in_part(pos),
            self.deep_view().has_all_voxels(),
        ensures
            material == self.deep_view().material(pos.x as int, pos.y as int, pos.z as int),
    {
        let i = self.voxel_to_index(pos.x, pos.y, pos.z);
        self.voxels[i]
    }

    /// The material at a place in the voxel list.
    pub fn get_index(&self, i: usize) -> (material: Material)
        requires
            i < self.deep_view().voxels.len(),
        ensures
            material == self.deep_view().voxels[i as int],
    {
        self.voxels[i]
    }

    /// Puts `material` at a voxel; every other voxel keeps its material.
    pub fn set(&mut self, pos: VoxelPos, material: Material)
        requires
            old(self).spec_voxel_is_in_part(pos),
            old(self).deep_view().has_all_voxels(),
        ensures
            final(self).deep_view() == (PartView {
                voxels: old(self).deep_view().voxels.update(
                    old(self).deep_view().index(pos.x as int, pos.y as int, pos.z as int),
                    material,
                ),
                ..old(self).deep_view()
            }),
    {
        let i = self.voxel_to_index(pos.x, pos.y, pos.z);
        self.voxels.set(i, material);
    }

    pub fn width(&self) -> (w: u8)
        ensures
            w == self.deep_view().width,
    {
        self.width
    }

    pub fn height(&self) -> (h: u8)
        ensures
            h == self.deep_view().height,
    {
        self.height
    }

    pub fn depth(&self) -> (d: u8)
        ensures
            d == self.deep_view().depth,
    {
        self.depth
    }

    /// The number of voxels its size calls for.
    pub fn size(&self) -> (size: u32)
        ensures
            size == self.deep_view().size(),
    {
        proof {
            assert(self.width * self.height * self.depth <= 255 * 255 * 255) by (nonlinear_arith)
                requires
                    self.width <= 255,
                    self.height <= 255,
                    self.depth <= 255,
            ;
            assert(self.width * self.height <= 255 * 255) by (nonlinear_arith)
                requires
                    self.width <= 255,
                    self.height <= 255,
            ;
        }
        self.width as u32 * self.height as u32 * self.depth as u32
    }

    pub fn voxels(&self) -> (voxels: &[Material])
        ensures
            voxels@ == self.deep_view().voxels,
    {
        self.voxels.as_slice()
    }

    /// Replaces the voxel list; the size stays as it was.
    pub fn set_voxels(&mut self, new_voxels: &[Material])
        ensures
            final(self).deep_view() == (PartView { voxels: new_voxels@, ..old(self).deep_view() }),
    {
        self.voxels = copy_materials(new_voxels);
    }

    pub fn parent_part_id(&self) -> (parent: Option<PartId>)
        ensures
            parent.deep_view() == self.deep_view().parent_part_id,
    {
        self.parent_part_id
    }

    /// A copy of this part.
    pub fn duplicate(&self) -> (copy: Part)
        ensures
            copy.deep_view() == self.deep_view(),
    {
        Part {
            width: self.width,
            height: self.height,
            depth: self.depth,
            voxels: copy_materials(self.voxels.as_slice()),
            parent_part_id: self.parent_part_id,
        }
    }

    /// A copy of this part that records `parent_part_id` as the part it was copied from.
    pub fn clone_as_child_of(&self, parent_part_id: PartId) -> (child: Part)
        ensures
            child.deep_view() == (PartView {
                parent_part_id: Some(parent_part_id.deep_view()),
                ..self.deep_view()
            }),
    {
        Part {
            width: self.width,
            height: self.height,
            depth: self.depth,
            voxels: copy_materials(self.voxels.as_slice()),
            parent_part_id: Some(parent_part_id),
        }
    }

    /// Whether every voxel in the list is empty.
    pub fn is_empty(&self) -> (empty: bool)
        ensures
            empty == forall|i: int|
                0 <= i < self.deep_view().voxels.len() ==> self.deep_view().voxels[i]
                    == Material::Empty,
    {
        let mut i: usize = 0;
        while i < self.voxels.len()
            invariant
                i <= self.voxels.len(),
                forall|j: int| 0 <= j < i ==> self.voxels@[j] == Material::Empty,
            decreases self.voxels.len() - i,
        {
            if self.voxels[i] != Material::Empty {
                return false;
            }
            i = i + 1;
        }
        true
    }
}

/// A voxel holds what was last put there, and putting a material somewhere
/// changes no other voxel.
pub proof fn lemma_set_then_get(
    p: PartView,
    x: int,
    y: int,
    z: int,
    material: Material,
    qx: int,
    qy: int,
    qz: int,
)
    requires
        p.contains(x, y, z),
        p.contains(qx, qy, qz),
        p.has_all_voxels(),
    ensures
        ({
            let q = PartView { voxels: p.voxels.update(p.index(x, y, z), material), ..p };
            &&& q.has_all_voxels()
            &&& q.material(x, y, z) == material
            &&& (qx, qy, qz) != (x, y, z) ==> q.material(qx, qy, qz) == p.material(qx, qy, qz)
        }),
{
    lemma_voxel_index_bounds(p.width as int, p.height as int, p.depth as int, x, y, z);
    lemma_voxel_index_bounds(p.width as int, p.height as int, p.depth as int, qx, qy, qz);
    if p.index(x, y, z) == p.index(qx, qy, qz) {
        lemma_voxel_index_injective(p.width as int, p.height as int, x, y, z, qx, qy, qz);
    }
}

/// The layout a part is read and written with: its size, then its voxels, then its parent.
pub type PartLayout = ((u8, u8, u8), (Vec<Material>, Option<PartId>));

impl PartView {
    /// The part in its wire layout.
    pub open spec fn layout(self) -> ((u8, u8, u8), (Seq<Material>, Option<u32>)) {
        ((self.width, self.height, self.depth), (self.voxels, self.parent_part_id))
    }

    /// The part a wire layout stands for.
    pub open spec fn from_layout(l: ((u8, u8, u8), (Seq<Material>, Option<u32>))) -> PartView {
        PartView {
            width: l.0.0,
            height: l.0.1,
            depth: l.0.2,
            voxels: l.1.0,
            parent_part_id: l.1.1,
        }
    }
}

impl PacketSerialize for Part {
    /// The width, height and depth bytes, the voxel vector, then the optional parent.
    open spec fn spec_serialize(v: PartView) -> Seq<u8> {
        PartLayout::spec_serialize(v.layout())
    }

    fn serialize(&self, packet: &mut Packet) {
        let ghost start = packet@;
        let ghost v = self.deep_view();
        proof {
            assert(PartLayout::spec_serialize(v.layout()) =~= u8::spec_serialize(v.width)
                + u8::spec_serialize(v.height) + u8::spec_serialize(v.depth)
                + Vec::<Material>::spec_serialize(v.voxels)
                + Option::<PartId>::spec_serialize(v.parent_part_id));
        }
        let ghost vec_len = Vec::<Material>::spec_serialize(v.voxels).len();
        let ghost opt_len = Option::<PartId>::spec_serialize(v.parent_part_id).len();
        assert(PartLayout::spec_serialize(v.layout()).len() == 3 + vec_len + opt_len);
        self.width.serialize(packet);
        self.height.serialize(packet);
        self.depth.serialize(packet);
        assert(packet@.data.len() == start.data.len() + 3);
        assert(self.voxels.deep_view() =~= v.voxels);
        self.voxels.serialize(packet);
        assert(packet@.data.len() == start.data.len() + 3 + vec_len);
        self.parent_part_id.serialize(packet);
        proof {
            assert(packet@.data =~= start.data + PartLayout::spec_serialize(v.layout()));
        }
    }
}

impl PacketDeserialize for Part {
    open spec fn spec_deserialize(bytes: Seq<u8>) -> Decoded<PartView> {
        PartLayout::spec_deserialize(bytes).map(
            |l: ((u8, u8, u8), (Seq<Material>, Option<u32>))| PartView::from_layout(l),
        )
    }

    proof fn lemma_deserialize_within(bytes: Seq<u8>) {
        PartLayout::lemma_deserialize_within(bytes);
    }

    fn read_from(packet: &mut Packet) -> (res: ReadOutcome<Part>) {
        match PartLayout::read_from(packet) {
            ReadOutcome::Value(l) => {
                let ghost lv = l.deep_view();
                let ((width, height, depth), (voxels, parent_part_id)) = l;
                assert(voxels.deep_view() =~= voxels@);
                let part = Part { width, height, depth, voxels, parent_part_id };
                assert(part.deep_view() == PartView::from_layout(lv));
                ReadOutcome::Value(part)
            },
            ReadOutcome::Error(e) => ReadOutcome::Error(e),
            ReadOutcome::Undefined => ReadOutcome::Undefined,
        }
    }
}

impl PacketRoundtrip for Part {
    /// Parts with no more voxels than a `u64` counts.
    open spec fn spec_fits(v: PartView) -> bool {
        PartLayout::spec_fits(v.layout())
    }

    proof fn lemma_roundtrip(v: PartView, rest: Seq<u8>) {
        PartLayout::lemma_roundtrip(v.layout(), rest);
        assert(PartView::from_layout(v.layout()) == v);
    }
}

/// A part is written as its width, its height and its depth, a byte each, then its
/// voxels as a vector of materials, then the id of the part it was copied from as an
/// option; and those bytes, whatever follows them, read back as that part, taking
/// exactly them, when the voxels are few enough for a `u64` to count.
pub proof fn lemma_part_bytes(v: PartView, rest: Seq<u8>)
    ensures
        Part::spec_serialize(v) == seq![v.width, v.height, v.depth] + Vec::<Material>::spec_serialize(
            v.voxels,
        ) + Option::<PartId>::spec_serialize(v.parent_part_id),
        v.voxels.len() <= u64::MAX ==> Part::spec_deserialize(
            seq![v.width, v.height, v.depth] + Vec::<Material>::spec_serialize(v.voxels)
                + Option::<PartId>::spec_serialize(v.parent_part_id) + rest,
        ) == Decoded::Value(v, 3 + Vec::<Material>::spec_serialize(v.voxels).len()
            + Option::<PartId>::spec_serialize(v.parent_part_id).len()),
{
    let vox = Vec::<Material>::spec_serialize(v.voxels);
    let par = Option::<PartId>::spec_serialize(v.parent_part_id);
    assert(Part::spec_serialize(v) =~= seq![v.width, v.height, v.depth] + vox + par);
    if v.voxels.len() <= u64::MAX {
        assert(Part::spec_fits(v));
        Part::lemma_roundtrip(v, rest);
    }
}

/// How a part travels in a packet: by the id of a part every client already has,
/// or whole.
pub enum PartNetworkRepr {
    Predefined(PartId),
    Child(Part),
}

/// What a part's network form is.
pub enum PartNetworkReprView {
    Predefined(u32),
    Child(PartView),
}

impl DeepView for PartNetworkRepr {
    type V = PartNetworkReprView;

    open spec fn deep_view(&self) -> PartNetworkReprView {
        match self {
            PartNetworkRepr::Predefined(id) => PartNetworkReprView::Predefined(id.deep_view()),
            PartNetworkRepr::Child(part) => PartNetworkReprView::Child(part.deep_view()),
        }
    }
}

impl PacketSerialize for PartNetworkRepr {
    /// `false` then the id, or `true` then the part.
    open spec fn spec_serialize(v: PartNetworkReprView) -> Seq<u8> {
        match v {
            PartNetworkReprView::Predefined(id) => bool::spec_serialize(false) + PartId::spec_serialize(id),
            PartNetworkReprView::Child(part) => bool::spec_serialize(true) + Part::spec_serialize(part),
        }
    }

    fn serialize(&self, packet: &mut Packet) {
        match self {
            PartNetworkRepr::Predefined(part_id) => {
                false.serialize(packet);
                part_id.serialize(packet);
            },
            PartNetworkRepr::Child(part) => {
                true.serialize(packet);
                part.serialize(packet);
            },
        }
        proof {
            assert(packet@.data =~= old(packet)@.data + Self::spec_serialize(self.deep_view()));
        }
    }
}

impl PacketDeserialize for PartNetworkRepr {
    open spec fn spec_deserialize(bytes: Seq<u8>) -> Decoded<PartNetworkReprView> {
        match bool::spec_deserialize(bytes) {
            Decoded::Value(false, n) => PartId::spec_deserialize(bytes.skip(n as int)).map(
                |id: u32| PartNetworkReprView::Predefined(id),
            ).after(n),
            Decoded::Value(true, n) => Part::spec_deserialize(bytes.skip(n as int)).map(
                |p: PartView| PartNetworkReprView::Child(p),
            ).after(n),
            Decoded::OutOfBounds(n) => Decoded::OutOfBounds(n),
            Decoded::Invalid(n) => Decoded::Invalid(n),
            Decoded::Undefined => Decoded::Undefined,
        }
    }

    proof fn lemma_deserialize_within(bytes: Seq<u8>) {
        if bytes.len() >= 1 {
            PartId::lemma_deserialize_within(bytes.skip(1));
            Part::lemma_deserialize_within(bytes.skip(1));
        }
    }

    fn read_from(packet: &mut Packet) -> (res: ReadOutcome<PartNetworkRepr>) {
        let ghost p0 = packet@;
        let is_child = match bool::read_from(packet) {
            ReadOutcome::Value(b) => b,
            ReadOutcome::Error(e) => return ReadOutcome::Error(e),
            ReadOutcome::Undefined => return ReadOutcome::Undefined,
        };
        proof {
            lemma_unread_advanced(p0, 1);
        }
        if is_child {
            match Part::read_from(packet) {
                ReadOutcome::Value(part) => ReadOutcome::Value(PartNetworkRepr::Child(part)),
                ReadOutcome::Error(e) => ReadOutcome::Error(e),
                ReadOutcome::Undefined => ReadOutcome::Undefined,
            }
        } else {
            match PartId::read_from(packet) {
                ReadOutcome::Value(id) => ReadOutcome::Value(PartNetworkRepr::Predefined(id)),
                ReadOutcome::Error(e) => ReadOutcome::Error(e),
                ReadOutcome::Undefined => ReadOutcome::Undefined,
            }
        }
    }
}

/// A part sent by id is a `0` byte then the id as four bytes, low byte first; a
/// part sent whole is a `1` byte then the part's bytes.
pub proof fn lemma_part_network_repr_bytes(v: PartNetworkReprView)
    ensures
        v matches PartNetworkReprView::Predefined(id) ==> PartNetworkRepr::spec_serialize(v) == seq![0u8]
            + u32::spec_serialize(id),
        v matches PartNetworkReprView::Child(part) ==> PartNetworkRepr::spec_serialize(v) == seq![1u8]
            + Part::spec_serialize(part),
{
}

impl PacketRoundtrip for PartNetworkRepr {
    open spec fn spec_fits(v: PartNetworkReprView) -> bool {
        match v {
            PartNetworkReprView::Predefined(_) => true,
            PartNetworkReprView::Child(part) => Part::spec_fits(part),
        }
    }

    proof fn lemma_roundtrip(v: PartNetworkReprView, rest: Seq<u8>) {
        let bytes = Self::spec_serialize(v) + rest;
        match v {
            PartNetworkReprView::Predefined(id) => {
                assert(bytes.skip(1) =~= PartId::spec_serialize(id) + rest);
                PartId::lemma_roundtrip(id, rest);
            },
            PartNetworkReprView::Child(part) => {
                assert(bytes.skip(1) =~= Part::spec_serialize(part) + rest);
                Part::lemma_roundtrip(part, rest);
            },
        }
    }
}

} // verus!
