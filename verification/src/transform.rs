//! Positions, rotations and placements as they travel in packets.
//!
//! Coordinates are single-precision floats; the library holds each one as the
//! 32 bits of its IEEE 754 encoding (`f32::to_bits`), which is also what goes
//! on the wire, little-endian.

use vstd::prelude::*;

use crate::codec::{
    Decoded, PacketDeserialize, PacketRoundtrip, PacketSerialize, ReadOutcome, serialize_elems,
};
use crate::packet::Packet;

verus! {

/// Keeps the first `width` values read, when at least that many were read; fewer
/// leave the reading undefined.
pub open spec fn take_fixed(d: Decoded<Seq<u32>>, width: nat) -> Decoded<Seq<u32>> {
    match d {
        Decoded::Value(s, n) => if s.len() >= width {
            Decoded::Value(s.take(width as int), n)
        } else {
            Decoded::Undefined
        },
        Decoded::OutOfBounds(n) => Decoded::OutOfBounds(n),
        Decoded::Invalid(n) => Decoded::Invalid(n),
        Decoded::Undefined => Decoded::Undefined,
    }
}

/// A three-component vector of floats, held as their bits.
#[derive(Clone, Copy, Debug, PartialEq, Eq, Structural)]
pub struct Vec3Bits {
    pub x: u32,
    pub y: u32,
    pub z: u32,
}

impl Vec3Bits {
    pub fn new(x: u32, y: u32, z: u32) -> (v: Vec3Bits)
        ensures
            v == (Vec3Bits { x, y, z }),
    {
        Vec3Bits { x, y, z }
    }
}

impl DeepView for Vec3Bits {
    type V = Vec3Bits;

    open spec fn deep_view(&self) -> Vec3Bits {
        *self
    }
}

impl PacketSerialize for Vec3Bits {
    /// The components as a vector of floats: a `u64` count of 3, then `x`, `y`, `z`.
    open spec fn spec_serialize(v: Vec3Bits) -> Seq<u8> {
        Vec::<u32>::spec_serialize(seq![v.x, v.y, v.z])
    }

    fn serialize(&self, packet: &mut Packet) {
        let components: Vec<u32> = vec![self.x, self.y, self.z];
        proof {
            assert(components.deep_view() =~= seq![self.x, self.y, self.z]);
        }
        components.serialize(packet);
    }
}

impl PacketDeserialize for Vec3Bits {
    /// A vector of floats, of which the first three are taken; a shorter vector has
    /// no defined reading.
    open spec fn spec_deserialize(bytes: Seq<u8>) -> Decoded<Vec3Bits> {
        take_fixed(Vec::<u32>::spec_deserialize(bytes), 3).map(
            |s: Seq<u32>| Vec3Bits { x: s[0], y: s[1], z: s[2] },
        )
    }

    proof fn lemma_deserialize_within(bytes: Seq<u8>) {
        Vec::<u32>::lemma_deserialize_within(bytes);
    }

    fn read_from(packet: &mut Packet) -> (res: ReadOutcome<Vec3Bits>) {
        let components = match Vec::<u32>::read_from(packet) {
            ReadOutcome::Value(v) => v,
            ReadOutcome::Error(e) => return ReadOutcome::Error(e),
            ReadOutcome::Undefined => return ReadOutcome::Undefined,
        };
        if components.len() < 3 {
            return ReadOutcome::Undefined;
        }
        proof {
            assert(components.deep_view()[0] == components[0]);
            assert(components.deep_view()[1] == components[1]);
            assert(components.deep_view()[2] == components[2]);
        }
        ReadOutcome::Value(Vec3Bits { x: components[0], y: components[1], z: components[2] })
    }
}

impl PacketRoundtrip for Vec3Bits {
    open spec fn spec_fits(v: Vec3Bits) -> bool {
        true
    }

    proof fn lemma_roundtrip(v: Vec3Bits, rest: Seq<u8>) {
        let s = seq![v.x, v.y, v.z];
        Vec::<u32>::lemma_roundtrip(s, rest);
        assert(s.take(3) =~= s);
    }
}

/// A vector is written as the count 3 in eight bytes, then `x`, `y` and `z`, four
/// bytes each, low byte first; and those bytes, whatever follows them, read back as
/// that vector, taking exactly them.
pub proof fn lemma_vec3_bytes(v: Vec3Bits, rest: Seq<u8>)
    ensures
        Vec3Bits::spec_serialize(v) == u64::spec_serialize(3) + u32::spec_serialize(v.x)
            + u32::spec_serialize(v.y) + u32::spec_serialize(v.z),
        Vec3Bits::spec_deserialize(
            u64::spec_serialize(3) + u32::spec_serialize(v.x) + u32::spec_serialize(v.y)
                + u32::spec_serialize(v.z) + rest,
        ) == Decoded::Value(v, (u64::spec_serialize(3) + u32::spec_serialize(v.x)
            + u32::spec_serialize(v.y) + u32::spec_serialize(v.z)).len()),
{
    let s = seq![v.x, v.y, v.z];
    assert(s.drop_last() =~= seq![v.x, v.y]);
    assert(seq![v.x, v.y].drop_last() =~= seq![v.x]);
    assert(seq![v.x].drop_last() =~= Seq::<u32>::empty());
    reveal_with_fuel(serialize_elems, 4);
    assert(serialize_elems::<u32>(s) =~= u32::spec_serialize(v.x) + u32::spec_serialize(v.y)
        + u32::spec_serialize(v.z));
    assert(Vec3Bits::spec_serialize(v) =~= u64::spec_serialize(3) + u32::spec_serialize(v.x)
        + u32::spec_serialize(v.y) + u32::spec_serialize(v.z));
    Vec3Bits::lemma_roundtrip(v, rest);
}

/// A rotation quaternion of floats, held as their bits, in the order `x, y, z, w`.
#[derive(Clone, Copy, Debug, PartialEq, Eq, Structural)]
pub struct QuatBits {
    pub x: u32,
    pub y: u32,
    pub z: u32,
    pub w: u32,
}

impl QuatBits {
    pub fn new(x: u32, y: u32, z: u32, w: u32) -> (q: QuatBits)
        ensures
            q == (QuatBits { x, y, z, w }),
    {
        QuatBits { x, y, z, w }
    }
}

impl DeepView for QuatBits {
    type V = QuatBits;

    open spec fn deep_view(&self) -> QuatBits {
        *self
    }
}

impl PacketSerialize for QuatBits {
    /// The components as a vector of floats: a `u64` count of 4, then `x`, `y`, `z`, `w`.
    open spec fn spec_serialize(v: QuatBits) -> Seq<u8> {
        Vec::<u32>::spec_serialize(seq![v.x, v.y, v.z, v.w])
    }

    fn serialize(&self, packet: &mut Packet) {
        let components: Vec<u32> = vec![self.x, self.y, self.z, self.w];
        proof {
            assert(components.deep_view() =~= seq![self.x, self.y, self.z, self.w]);
        }
        components.serialize(packet);
    }
}

impl PacketDeserialize for QuatBits {
    /// A vector of floats, of which the first four are taken; a shorter vector has
    /// no defined reading.
    open spec fn spec_deserialize(bytes: Seq<u8>) -> Decoded<QuatBits> {
        take_fixed(Vec::<u32>::spec_deserialize(bytes), 4).map(
            |s: Seq<u32>| QuatBits { x: s[0], y: s[1], z: s[2], w: s[3] },
        )
    }

    proof fn lemma_deserialize_within(bytes: Seq<u8>) {
        Vec::<u32>::lemma_deserialize_within(bytes);
    }

    fn read_from(packet: &mut Packet) -> (res: ReadOutcome<QuatBits>) {
        let components = match Vec::<u32>::read_from(packet) {
            ReadOutcome::Value(v) => v,
            ReadOutcome::Error(e) => return ReadOutcome::Error(e),
            ReadOutcome::Undefined => return ReadOutcome::Undefined,
        };
        if components.len() < 4 {
            return ReadOutcome::Undefined;
        }
        proof {
            assert(components.deep_view()[0] == components[0]);
            assert(components.deep_view()[1] == components[1]);
            assert(components.deep_view()[2] == components[2]);
            assert(components.deep_view()[3] == components[3]);
        }
        ReadOutcome::Value(
            QuatBits { x: components[0], y: components[1], z: components[2], w: components[3] },
        )
    }
}

impl PacketRoundtrip for QuatBits {
    open spec fn spec_fits(v: QuatBits) -> bool {
        true
    }

    proof fn lemma_roundtrip(v: QuatBits, rest: Seq<u8>) {
        let s = seq![v.x, v.y, v.z, v.w];
        Vec::<u32>::lemma_roundtrip(s, rest);
        assert(s.take(4) =~= s);
    }
}

/// A rotation is written as the count 4 in eight bytes, then `x`, `y`, `z` and `w`,
/// four bytes each, low byte first; and those bytes, whatever follows them, read
/// back as that rotation, taking exactly them.
pub proof fn lemma_quat_bytes(q: QuatBits, rest: Seq<u8>)
    ensures
        QuatBits::spec_serialize(q) == u64::spec_serialize(4) + u32::spec_serialize(q.x)
            + u32::spec_serialize(q.y) + u32::spec_serialize(q.z) + u32::spec_serialize(q.w),
        QuatBits::spec_deserialize(
            u64::spec_serialize(4) + u32::spec_serialize(q.x) + u32::spec_serialize(q.y)
                + u32::spec_serialize(q.z) + u32::spec_serialize(q.w) + rest,
        ) == Decoded::Value(q, (u64::spec_serialize(4) + u32::spec_serialize(q.x)
            + u32::spec_serialize(q.y) + u32::spec_serialize(q.z) + u32::spec_serialize(q.w)).len()),
{
    let s = seq![q.x, q.y, q.z, q.w];
    assert(s.drop_last() =~= seq![q.x, q.y, q.z]);
    assert(seq![q.x, q.y, q.z].drop_last() =~= seq![q.x, q.y]);
    assert(seq![q.x, q.y].drop_last() =~= seq![q.x]);
    assert(seq![q.x].drop_last() =~= Seq::<u32>::empty());
    reveal_with_fuel(serialize_elems, 5);
    assert(serialize_elems::<u32>(s) =~= u32::spec_serialize(q.x) + u32::spec_serialize(q.y)
        + u32::spec_serialize(q.z) + u32::spec_serialize(q.w));
    assert(QuatBits::spec_serialize(q) =~= u64::spec_serialize(4) + u32::spec_serialize(q.x)
        + u32::spec_serialize(q.y) + u32::spec_serialize(q.z) + u32::spec_serialize(q.w));
    QuatBits::lemma_roundtrip(q, rest);
}

/// A placement without scale: where a thing is and how it is turned.
#[derive(Clone, Copy, Debug, PartialEq, Eq, Structural)]
pub struct CompactTransform {
    pub translation: Vec3Bits,
    pub rotation: QuatBits,
}

impl CompactTransform {
    pub fn new(translation: Vec3Bits, rotation: QuatBits) -> (t: CompactTransform)
        ensures
            t == (CompactTransform { translation, rotation }),
    {
        CompactTransform { translation, rotation }
    }
}

impl DeepView for CompactTransform {
    type V = CompactTransform;

    open spec fn deep_view(&self) -> CompactTransform {
        *self
    }
}

impl PacketSerialize for CompactTransform {
    /// The translation, then the rotation.
    open spec fn spec_serialize(v: CompactTransform) -> Seq<u8> {
        <(Vec3Bits, QuatBits)>::spec_serialize((v.translation, v.rotation))
    }

    fn serialize(&self, packet: &mut Packet) {
        (self.translation, self.rotation).serialize(packet);
    }
}

impl PacketDeserialize for CompactTransform {
    open spec fn spec_deserialize(bytes: Seq<u8>) -> Decoded<CompactTransform> {
        <(Vec3Bits, QuatBits)>::spec_deserialize(bytes).map(
            |t: (Vec3Bits, QuatBits)| CompactTransform { translation: t.0, rotation: t.1 },
        )
    }

    proof fn lemma_deserialize_within(bytes: Seq<u8>) {
        <(Vec3Bits, QuatBits)>::lemma_deserialize_within(bytes);
    }

    fn read_from(packet: &mut Packet) -> (res: ReadOutcome<CompactTransform>) {
        match <(Vec3Bits, QuatBits)>::read_from(packet) {
            ReadOutcome::Value(t) => ReadOutcome::Value(
                CompactTransform { translation: t.0, rotation: t.1 },
            ),
            ReadOutcome::Error(e) => ReadOutcome::Error(e),
            ReadOutcome::Undefined => ReadOutcome::Undefined,
        }
    }
}

impl PacketRoundtrip for CompactTransform {
    open spec fn spec_fits(v: CompactTransform) -> bool {
        true
    }

    proof fn lemma_roundtrip(v: CompactTransform, rest: Seq<u8>) {
        <(Vec3Bits, QuatBits)>::lemma_roundtrip((v.translation, v.rotation), rest);
    }
}

/// A placement without scale is written as its translation, then its rotation; and
/// those bytes, whatever follows them, read back as that placement.
pub proof fn lemma_compact_transform_bytes(t: CompactTransform, rest: Seq<u8>)
    ensures
        CompactTransform::spec_serialize(t) == Vec3Bits::spec_serialize(t.translation)
            + QuatBits::spec_serialize(t.rotation),
        CompactTransform::spec_deserialize(
            Vec3Bits::spec_serialize(t.translation) + QuatBits::spec_serialize(t.rotation) + rest,
        ) == Decoded::Value(t, (Vec3Bits::spec_serialize(t.translation) + QuatBits::spec_serialize(
            t.rotation,
        )).len()),
{
    CompactTransform::lemma_roundtrip(t, rest);
}

/// A full placement: translation, rotation and scale.
#[derive(Clone, Copy, Debug, PartialEq, Eq, Structural)]
pub struct TransformBits {
    pub translation: Vec3Bits,
    pub rotation: QuatBits,
    pub scale: Vec3Bits,
}

impl DeepView for TransformBits {
    type V = TransformBits;

    open spec fn deep_view(&self) -> TransformBits {
        *self
    }
}

impl PacketSerialize for TransformBits {
    /// The translation, the rotation, then the scale.
    open spec fn spec_serialize(v: TransformBits) -> Seq<u8> {
        <(Vec3Bits, QuatBits, Vec3Bits)>::spec_serialize((v.translation, v.rotation, v.scale))
    }

    fn serialize(&self, packet: &mut Packet) {
        (self.translation, self.rotation, self.scale).serialize(packet);
    }
}

impl PacketDeserialize for TransformBits {
    open spec fn spec_deserialize(bytes: Seq<u8>) -> Decoded<TransformBits> {
        <(Vec3Bits, QuatBits, Vec3Bits)>::spec_deserialize(bytes).map(
            |t: (Vec3Bits, QuatBits, Vec3Bits)|
                TransformBits { translation: t.0, rotation: t.1, scale: t.2 },
        )
    }

    proof fn lemma_deserialize_within(bytes: Seq<u8>) {
        <(Vec3Bits, QuatBits, Vec3Bits)>::lemma_deserialize_within(bytes);
    }

    fn read_from(packet: &mut Packet) -> (res: ReadOutcome<TransformBits>) {
        match <(Vec3Bits, QuatBits, Vec3Bits)>::read_from(packet) {
            ReadOutcome::Value(t) => ReadOutcome::Value(
                TransformBits { translation: t.0, rotation: t.1, scale: t.2 },
            ),
            ReadOutcome::Error(e) => ReadOutcome::Error(e),
            ReadOutcome::Undefined => ReadOutcome::Undefined,
        }
    }
}

impl PacketRoundtrip for TransformBits {
    open spec fn spec_fits(v: TransformBits) -> bool {
        true
    }

    proof fn lemma_roundtrip(v: TransformBits, rest: Seq<u8>) {
        <(Vec3Bits, QuatBits, Vec3Bits)>::lemma_roundtrip((v.translation, v.rotation, v.scale), rest);
    }
}

/// A full placement is written as its translation, then its rotation, then its
/// scale; and those bytes, whatever follows them, read back as that placement.
pub proof fn lemma_transform_bits_bytes(t: TransformBits, rest: Seq<u8>)
    ensures
        TransformBits::spec_serialize(t) == Vec3Bits::spec_serialize(t.translation)
            + QuatBits::spec_serialize(t.rotation) + Vec3Bits::spec_serialize(t.scale),
        TransformBits::spec_deserialize(
            Vec3Bits::spec_serialize(t.translation) + QuatBits::spec_serialize(t.rotation)
                + Vec3Bits::spec_serialize(t.scale) + rest,
        ) == Decoded::Value(t, (Vec3Bits::spec_serialize(t.translation) + QuatBits::spec_serialize(
            t.rotation,
        ) + Vec3Bits::spec_serialize(t.scale)).len()),
{
    TransformBits::lemma_roundtrip(t, rest);
}

} // verus!
