//! Identifiers that travel in packets.

use vstd::prelude::*;

use crate::codec::{
    Decoded, PacketDeserialize, PacketRoundtrip, PacketSerialize, ReadOutcome,
};
use crate::packet::Packet;

verus! {

/// The identifier the server gives an entity, shared by every client.
#[derive(Clone, Copy, Debug, PartialEq, Eq, Hash)]
pub struct NetworkId {
    id: u32,
}

impl NetworkId {
    pub fn id(&self) -> (id: u32)
        ensures
            id == self.deep_view(),
    {
        self.id
    }

    pub fn from(id: u32) -> (network_id: NetworkId)
        ensures
            network_id.deep_view() == id,
    {
        NetworkId { id }
    }
}

impl DeepView for NetworkId {
    type V = u32;

    closed spec fn deep_view(&self) -> u32 {
        self.id
    }
}

impl PacketSerialize for NetworkId {
    open spec fn spec_serialize(v: u32) -> Seq<u8> {
        u32::spec_serialize(v)
    }

    fn serialize(&self, packet: &mut Packet) {
        self.id.serialize(packet);
    }
}

impl PacketDeserialize for NetworkId {
    open spec fn spec_deserialize(bytes: Seq<u8>) -> Decoded<u32> {
        u32::spec_deserialize(bytes)
    }

    proof fn lemma_deserialize_within(bytes: Seq<u8>) {
    }

    fn read_from(packet: &mut Packet) -> (res: ReadOutcome<NetworkId>) {
        match u32::read_from(packet) {
            ReadOutcome::Value(id) => ReadOutcome::Value(NetworkId { id }),
            ReadOutcome::Error(e) => ReadOutcome::Error(e),
            ReadOutcome::Undefined => ReadOutcome::Undefined,
        }
    }
}

impl PacketRoundtrip for NetworkId {
    open spec fn spec_fits(v: u32) -> bool {
        true
    }

    proof fn lemma_roundtrip(v: u32, rest: Seq<u8>) {
        u32::lemma_roundtrip(v, rest);
    }
}


/// The identifier of a part shape in the part store.
#[derive(Clone, Copy, Debug, PartialEq, Eq, Hash)]
pub struct PartId {
    id: u32,
}

impl PartId {
    pub fn id(&self) -> (id: u32)
        ensures
            id == self.deep_view(),
    {
        self.id
    }
    pub fn from(id: u32) -> (value: PartId)
        ensures
            value.deep_view() == id,
    {
        PartId { id }
    }
}

impl DeepView for PartId {
    type V = u32;

    closed spec fn deep_view(&self) -> u32 {
        self.id
    }
}

impl PacketSerialize for PartId {
    open spec fn spec_serialize(v: u32) -> Seq<u8> {
        u32::spec_serialize(v)
    }

    fn serialize(&self, packet: &mut Packet) {
        self.id.serialize(packet);
    }
}

impl PacketDeserialize for PartId {
    open spec fn spec_deserialize(bytes: Seq<u8>) -> Decoded<u32> {
        u32::spec_deserialize(bytes)
    }

    proof fn lemma_deserialize_within(bytes: Seq<u8>) {
    }

    fn read_from(packet: &mut Packet) -> (res: ReadOutcome<PartId>) {
        match u32::read_from(packet) {
            ReadOutcome::Value(id) => ReadOutcome::Value(PartId { id }),
            ReadOutcome::Error(e) => ReadOutcome::Error(e),
            ReadOutcome::Undefined => ReadOutcome::Undefined,
        }
    }
}

impl PacketRoundtrip for PartId {
    open spec fn spec_fits(v: u32) -> bool {
        true
    }

    proof fn lemma_roundtrip(v: u32, rest: Seq<u8>) {
        u32::lemma_roundtrip(v, rest);
    }
}

/// The identifier the server gives a connected player.
#[derive(Clone, Copy, Debug, PartialEq, Eq, Hash)]
pub struct PlayerId {
    id: u8,
}

impl PlayerId {
    pub fn from(id: u8) -> (value: PlayerId)
        ensures
            value.deep_view() == id,
    {
        PlayerId { id }
    }
}

impl DeepView for PlayerId {
    type V = u8;

    closed spec fn deep_view(&self) -> u8 {
        self.id
    }
}

impl PacketSerialize for PlayerId {
    open spec fn spec_serialize(v: u8) -> Seq<u8> {
        u8::spec_serialize(v)
    }

    fn serialize(&self, packet: &mut Packet) {
        self.id.serialize(packet);
    }
}

impl PacketDeserialize for PlayerId {
    open spec fn spec_deserialize(bytes: Seq<u8>) -> Decoded<u8> {
        u8::spec_deserialize(bytes)
    }

    proof fn lemma_deserialize_within(bytes: Seq<u8>) {
    }

    fn read_from(packet: &mut Packet) -> (res: ReadOutcome<PlayerId>) {
        match u8::read_from(packet) {
            ReadOutcome::Value(id) => ReadOutcome::Value(PlayerId { id }),
            ReadOutcome::Error(e) => ReadOutcome::Error(e),
            ReadOutcome::Undefined => ReadOutcome::Undefined,
        }
    }
}

impl PacketRoundtrip for PlayerId {
    open spec fn spec_fits(v: u8) -> bool {
        true
    }

    proof fn lemma_roundtrip(v: u8, rest: Seq<u8>) {
        u8::lemma_roundtrip(v, rest);
    }
}

/// The name a player goes by.
#[derive(Clone, Debug)]
pub struct PlayerName {
    name: String,
}

impl PlayerName {
    pub fn from(name: String) -> (value: PlayerName)
        ensures
            value.deep_view() == name@,
    {
        PlayerName { name }
    }

    /// The name as a string.
    pub fn to_string(&self) -> (name: String)
        ensures
            name@ == self.deep_view(),
    {
        self.name.clone()
    }
}

impl DeepView for PlayerName {
    type V = Seq<char>;

    closed spec fn deep_view(&self) -> Seq<char> {
        self.name@
    }
}

impl PacketSerialize for PlayerName {
    open spec fn spec_serialize(v: Seq<char>) -> Seq<u8> {
        String::spec_serialize(v)
    }

    fn serialize(&self, packet: &mut Packet) {
        self.name.serialize(packet);
    }
}

impl PacketDeserialize for PlayerName {
    open spec fn spec_deserialize(bytes: Seq<u8>) -> Decoded<Seq<char>> {
        String::spec_deserialize(bytes)
    }

    proof fn lemma_deserialize_within(bytes: Seq<u8>) {
    }

    fn read_from(packet: &mut Packet) -> (res: ReadOutcome<PlayerName>) {
        match String::read_from(packet) {
            ReadOutcome::Value(name) => ReadOutcome::Value(PlayerName { name }),
            ReadOutcome::Error(e) => ReadOutcome::Error(e),
            ReadOutcome::Undefined => ReadOutcome::Undefined,
        }
    }
}

impl PacketRoundtrip for PlayerName {
    open spec fn spec_fits(v: Seq<char>) -> bool {
        String::spec_fits(v)
    }

    proof fn lemma_roundtrip(v: Seq<char>, rest: Seq<u8>) {
        String::lemma_roundtrip(v, rest);
    }
}

} // verus!
