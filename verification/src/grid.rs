//! Whole-number positions on the building grid.

use vstd::bytes::lemma_auto_spec_u16_to_from_le_bytes;
use vstd::prelude::*;

use crate::codec::{Decoded, PacketDeserialize, PacketRoundtrip, PacketSerialize, ReadOutcome};
use crate::packet::Packet;

verus! {

/// A cell of the building grid.
#[derive(Clone, Copy, Debug, PartialEq, Eq, Hash, Structural)]
pub struct GridPos {
    pub x: i16,
    pub y: i16,
    pub z: i16,
}

impl GridPos {
    pub fn new(x: i16, y: i16, z: i16) -> (pos: GridPos)
        ensures
            pos == (GridPos { x, y, z }),
    {
        GridPos { x, y, z }
    }
}

impl DeepView for GridPos {
    type V = GridPos;

    open spec fn deep_view(&self) -> GridPos {
        *self
    }
}

impl PacketSerialize for GridPos {
    /// The three coordinates, `x` first.
    open spec fn spec_serialize(v: GridPos) -> Seq<u8> {
        <(i16, i16, i16)>::spec_serialize((v.x, v.y, v.z))
    }

    fn serialize(&self, packet: &mut Packet) {
        (self.x, self.y, self.z).serialize(packet);
    }
}

impl PacketDeserialize for GridPos {
    open spec fn spec_deserialize(bytes: Seq<u8>) -> Decoded<GridPos> {
        <(i16, i16, i16)>::spec_deserialize(bytes).map(
            |c: (i16, i16, i16)| GridPos { x: c.0, y: c.1, z: c.2 },
        )
    }

    proof fn lemma_deserialize_within(bytes: Seq<u8>) {
        <(i16, i16, i16)>::lemma_deserialize_within(bytes);
    }

    fn read_from(packet: &mut Packet) -> (res: ReadOutcome<GridPos>) {
        match <(i16, i16, i16)>::read_from(packet) {
            ReadOutcome::Value(c) => ReadOutcome::Value(GridPos { x: c.0, y: c.1, z: c.2 }),
            ReadOutcome::Error(e) => ReadOutcome::Error(e),
            ReadOutcome::Undefined => ReadOutcome::Undefined,
        }
    }
}

impl PacketRoundtrip for GridPos {
    open spec fn spec_fits(v: GridPos) -> bool {
        true
    }

    proof fn lemma_roundtrip(v: GridPos, rest: Seq<u8>) {
        <(i16, i16, i16)>::lemma_roundtrip((v.x, v.y, v.z), rest);
    }
}

/// A grid cell is written as `x`, then `y`, then `z`, two bytes each, low byte
/// first; and those bytes, whatever follows them, read back as that cell.
pub proof fn lemma_grid_pos_bytes(p: GridPos, rest: Seq<u8>)
    ensures
        GridPos::spec_serialize(p) == i16::spec_serialize(p.x) + i16::spec_serialize(p.y)
            + i16::spec_serialize(p.z),
        GridPos::spec_deserialize(
            i16::spec_serialize(p.x) + i16::spec_serialize(p.y) + i16::spec_serialize(p.z) + rest,
        ) == Decoded::Value(p, 6),
{
    lemma_auto_spec_u16_to_from_le_bytes();
    GridPos::lemma_roundtrip(p, rest);
}

} // verus!
