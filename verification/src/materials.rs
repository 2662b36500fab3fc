//! What voxels are made of.

use vstd::prelude::*;

use crate::codec::{Decoded, PacketDeserialize, PacketRoundtrip, PacketSerialize, ReadOutcome};
use crate::packet::{Packet, PacketError};

verus! {

/// The material of one voxel; `Empty` is no material at all.
#[derive(Debug, Clone, Copy, PartialEq, Eq, Hash, Structural)]
pub enum Material {
    Empty,
    Aluminum,
}

impl Material {
    /// The byte that stands for this material.
    pub open spec fn spec_to_u8(self) -> u8 {
        match self {
            Material::Empty => 0,
            Material::Aluminum => 1,
        }
    }

    /// The material a byte stands for, if any.
    pub open spec fn spec_from_u8(byte: u8) -> Option<Material> {
        if byte == 0 {
            Some(Material::Empty)
        } else if byte == 1 {
            Some(Material::Aluminum)
        } else {
            None
        }
    }

    pub fn to_u8(self) -> (byte: u8)
        ensures
            byte == self.spec_to_u8(),
    {
        match self {
            Material::Empty => 0,
            Material::Aluminum => 1,
        }
    }

    pub fn try_from_u8(byte: u8) -> (res: Option<Material>)
        ensures
            res == Material::spec_from_u8(byte),
    {
        match byte {
            0 => Some(Material::Empty),
            1 => Some(Material::Aluminum),
            _ => None,
        }
    }
}

impl DeepView for Material {
    type V = Material;

    open spec fn deep_view(&self) -> Material {
        *self
    }
}

impl PacketSerialize for Material {
    open spec fn spec_serialize(v: Material) -> Seq<u8> {
        seq![v.spec_to_u8()]
    }

    fn serialize(&self, packet: &mut Packet) {
        self.to_u8().serialize(packet);
    }
}

impl PacketDeserialize for Material {
    /// One byte, which must stand for a material.
    open spec fn spec_deserialize(bytes: Seq<u8>) -> Decoded<Material> {
        if bytes.len() >= 1 {
            match Material::spec_from_u8(bytes[0]) {
                Some(m) => Decoded::Value(m, 1),
                None => Decoded::Invalid(1),
            }
        } else {
            Decoded::OutOfBounds(0)
        }
    }

    proof fn lemma_deserialize_within(bytes: Seq<u8>) {
    }

    fn read_from(packet: &mut Packet) -> (res: ReadOutcome<Material>) {
        match u8::read_from(packet) {
            ReadOutcome::Value(byte) => match Material::try_from_u8(byte) {
                Some(material) => ReadOutcome::Value(material),
                None => ReadOutcome::Error(PacketError::InvalidPacketError(packet.duplicate())),
            },
            ReadOutcome::Error(e) => ReadOutcome::Error(e),
            ReadOutcome::Undefined => ReadOutcome::Undefined,
        }
    }
}

impl PacketRoundtrip for Material {
    open spec fn spec_fits(v: Material) -> bool {
        true
    }

    proof fn lemma_roundtrip(v: Material, rest: Seq<u8>) {
    }
}

/// Empty is written as the byte 0 and aluminum as the byte 1; reading takes that one
/// byte back to its material, and any other byte stands for no material.
pub proof fn lemma_material_bytes(byte: u8, rest: Seq<u8>)
    ensures
        Material::spec_serialize(Material::Empty) == seq![0u8],
        Material::spec_serialize(Material::Aluminum) == seq![1u8],
        Material::spec_deserialize(seq![0u8] + rest) == Decoded::Value(Material::Empty, 1),
        Material::spec_deserialize(seq![1u8] + rest) == Decoded::Value(Material::Aluminum, 1),
        byte >= 2 ==> Material::spec_deserialize(seq![byte] + rest) == Decoded::<Material>::Invalid(1),
{
}

} // verus!
