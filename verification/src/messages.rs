//! The messages client and server exchange, each in a packet of its own type.

use vstd::prelude::*;

use crate::codec::{Decoded, PacketDeserialize, PacketRoundtrip, PacketSerialize, ReadOutcome};
use crate::ids::{NetworkId, PartId, PlayerId, PlayerName};
use crate::materials::Material;
use crate::packet::{
    lemma_frame_roundtrip, max_packet_len, spec_frame, spec_unframe, Packet, PacketError, PacketType,
    PacketView,
};
use crate::part::{PartNetworkRepr, PartNetworkReprView};
use crate::transform::{CompactTransform, Vec3Bits};

verus! {

/// What reading from a packet whose state was `old` gives, as a `Result`: the value,
/// or the error with the packet as it stood after the bytes consumed.
pub open spec fn read_result<T: DeepView>(old: PacketView, d: Decoded<T::V>, res: Result<T, PacketError>) -> bool {
    match d {
        Decoded::Value(v, n) => res matches Ok(x) && x.deep_view() == v,
        Decoded::OutOfBounds(n) => res matches Err(PacketError::BoundsError(p)) && p@ == old.advanced(
            n as int,
        ),
        Decoded::Invalid(n) => res matches Err(PacketError::InvalidPacketError(p)) && p@
            == old.advanced(n as int),
        Decoded::Undefined => false,
    }
}

/// A message that travels as a packet of one type, holding its bytes and nothing else.
pub trait Message: PacketRoundtrip {
    /// The type of the packets that carry this message.
    spec fn spec_packet_type() -> PacketType;

    fn packet_type() -> (packet_type: PacketType)
        ensures
            packet_type == Self::spec_packet_type(),
    ;
}

/// The packet that carries `message`, with its cursor at the start.
pub fn to_packet<M: Message>(message: &M) -> (packet: Packet)
    requires
        M::spec_serialize(message.deep_view()).len() <= max_packet_len(),
    ensures
        packet@ == (PacketView {
            data: M::spec_serialize(message.deep_view()),
            index: 0,
            packet_type: M::spec_packet_type(),
        }),
        packet@.well_formed(),
{
    let mut packet = Packet::new(M::packet_type());
    message.serialize(&mut packet);
    proof {
        assert(packet@.data =~= M::spec_serialize(message.deep_view()));
    }
    packet
}

/// The message of type `M` read at the cursor of `packet`, whatever the packet's type.
pub fn try_from_packet<M: Message>(packet: Packet) -> (res: Result<M, PacketError>)
    requires
        packet@.well_formed(),
        !(M::spec_deserialize(packet@.unread()) is Undefined),
    ensures
        read_result(packet@, M::spec_deserialize(packet@.unread()), res),
{
    let mut packet = packet;
    M::deserialize(&mut packet)
}

/// A message put in its packet, sent and received, reads back as the message, in a
/// packet of its type, taking all the bytes after the type's byte.
pub proof fn lemma_message_roundtrip<M: Message>(m: <M as DeepView>::V)
    requires
        M::spec_fits(m),
    ensures
        spec_unframe(
            spec_frame(PacketView { data: M::spec_serialize(m), index: 0, packet_type: M::spec_packet_type() }),
        ) matches Some(p) && p.packet_type == M::spec_packet_type() && M::spec_deserialize(p.unread())
            == Decoded::Value(m, M::spec_serialize(m).len()),
{
    let sent = PacketView { data: M::spec_serialize(m), index: 0, packet_type: M::spec_packet_type() };
    lemma_frame_roundtrip(sent);
    assert(M::spec_serialize(m) + Seq::<u8>::empty() =~= M::spec_serialize(m));
    M::lemma_roundtrip(m, Seq::empty());
}

/// The bytes of a list of players, each an id and a name.
pub open spec fn player_list_bytes(players: Seq<(u8, Seq<char>)>) -> Seq<u8> {
    Vec::<(PlayerId, PlayerName)>::spec_serialize(players)
}

/// The bytes of a list of parts, each its network form, its transform and its network id.
pub open spec fn part_list_bytes(parts: Seq<(PartNetworkReprView, CompactTransform, u32)>) -> Seq<u8> {
    Vec::<(PartNetworkRepr, CompactTransform, NetworkId)>::spec_serialize(parts)
}

/// A client's request to place a part on a construct.
pub struct PlacePartRequest {
    pub part_id: PartId,
    pub part_transform: CompactTransform,
    pub construct_network_id: NetworkId,
}

impl DeepView for PlacePartRequest {
    type V = (u32, CompactTransform, u32);

    open spec fn deep_view(&self) -> (u32, CompactTransform, u32) {
        (self.part_id.deep_view(), self.part_transform.deep_view(), self.construct_network_id.deep_view())
    }
}

impl PacketSerialize for PlacePartRequest {
    /// Its fields, in order.
    open spec fn spec_serialize(v: (u32, CompactTransform, u32)) -> Seq<u8> {
        <(PartId, CompactTransform, NetworkId)>::spec_serialize(v)
    }

    fn serialize(&self, packet: &mut Packet) {
        self.part_id.serialize(packet);
        self.part_transform.serialize(packet);
        self.construct_network_id.serialize(packet);
        proof {
            assert(packet@.data =~= old(packet)@.data + Self::spec_serialize(self.deep_view()));
        }
    }
}

impl PacketDeserialize for PlacePartRequest {
    open spec fn spec_deserialize(bytes: Seq<u8>) -> Decoded<(u32, CompactTransform, u32)> {
        <(PartId, CompactTransform, NetworkId)>::spec_deserialize(bytes)
    }

    proof fn lemma_deserialize_within(bytes: Seq<u8>) {
        <(PartId, CompactTransform, NetworkId)>::lemma_deserialize_within(bytes);
    }

    fn read_from(packet: &mut Packet) -> (res: ReadOutcome<PlacePartRequest>) {
        match <(PartId, CompactTransform, NetworkId)>::read_from(packet) {
            ReadOutcome::Value(t) => ReadOutcome::Value(PlacePartRequest { part_id: t.0, part_transform: t.1, construct_network_id: t.2 }),
            ReadOutcome::Error(e) => ReadOutcome::Error(e),
            ReadOutcome::Undefined => ReadOutcome::Undefined,
        }
    }
}

impl PacketRoundtrip for PlacePartRequest {
    open spec fn spec_fits(v: (u32, CompactTransform, u32)) -> bool {
        <(PartId, CompactTransform, NetworkId)>::spec_fits(v)
    }

    proof fn lemma_roundtrip(v: (u32, CompactTransform, u32), rest: Seq<u8>) {
        <(PartId, CompactTransform, NetworkId)>::lemma_roundtrip(v, rest);
    }
}

/// A place-part request is written as its part's id, then the part's transform, then
/// the construct's network id; and those bytes, whatever follows them, read back as
/// that message, taking exactly them.
pub proof fn lemma_place_part_request_bytes(m: PlacePartRequest, rest: Seq<u8>)
    ensures
        PlacePartRequest::spec_serialize(m.deep_view()) == u32::spec_serialize(m.part_id.deep_view())
            + CompactTransform::spec_serialize(m.part_transform)
            + u32::spec_serialize(m.construct_network_id.deep_view()),
        PlacePartRequest::spec_deserialize(
            u32::spec_serialize(m.part_id.deep_view())
            + CompactTransform::spec_serialize(m.part_transform)
            + u32::spec_serialize(m.construct_network_id.deep_view()) + rest,
        ) == Decoded::Value(m.deep_view(), (u32::spec_serialize(m.part_id.deep_view())
            + CompactTransform::spec_serialize(m.part_transform)
            + u32::spec_serialize(m.construct_network_id.deep_view())).len()),
{
    let v = m.deep_view();
    assert(PlacePartRequest::spec_serialize(v) =~= u32::spec_serialize(m.part_id.deep_view())
            + CompactTransform::spec_serialize(m.part_transform)
            + u32::spec_serialize(m.construct_network_id.deep_view()));
    PlacePartRequest::lemma_roundtrip(v, rest);
}

impl Message for PlacePartRequest {
    open spec fn spec_packet_type() -> PacketType {
        PacketType::PlacePart
    }

    fn packet_type() -> (packet_type: PacketType) {
        PacketType::PlacePart
    }
}

/// The server's order to place a part, under the network id it gave it.
pub struct PlacePartCommand {
    pub part_id: PartId,
    pub transform: CompactTransform,
    pub part_network_id: NetworkId,
    pub construct_network_id: NetworkId,
}

impl DeepView for PlacePartCommand {
    type V = (u32, CompactTransform, (u32, u32));

    open spec fn deep_view(&self) -> (u32, CompactTransform, (u32, u32)) {
        (self.part_id.deep_view(), self.transform.deep_view(), (self.part_network_id.deep_view(), self.construct_network_id.deep_view()))
    }
}

impl PacketSerialize for PlacePartCommand {
    /// Its fields, in order.
    open spec fn spec_serialize(v: (u32, CompactTransform, (u32, u32))) -> Seq<u8> {
        <(PartId, CompactTransform, (NetworkId, NetworkId))>::spec_serialize(v)
    }

    fn serialize(&self, packet: &mut Packet) {
        self.part_id.serialize(packet);
        self.transform.serialize(packet);
        self.part_network_id.serialize(packet);
        self.construct_network_id.serialize(packet);
        proof {
            assert(packet@.data =~= old(packet)@.data + Self::spec_serialize(self.deep_view()));
        }
    }
}

impl PacketDeserialize for PlacePartCommand {
    open spec fn spec_deserialize(bytes: Seq<u8>) -> Decoded<(u32, CompactTransform, (u32, u32))> {
        <(PartId, CompactTransform, (NetworkId, NetworkId))>::spec_deserialize(bytes)
    }

    proof fn lemma_deserialize_within(bytes: Seq<u8>) {
        <(PartId, CompactTransform, (NetworkId, NetworkId))>::lemma_deserialize_within(bytes);
    }

    fn read_from(packet: &mut Packet) -> (res: ReadOutcome<PlacePartCommand>) {
        match <(PartId, CompactTransform, (NetworkId, NetworkId))>::read_from(packet) {
            ReadOutcome::Value(t) => ReadOutcome::Value(PlacePartCommand { part_id: t.0, transform: t.1, part_network_id: t.2.0, construct_network_id: t.2.1 }),
            ReadOutcome::Error(e) => ReadOutcome::Error(e),
            ReadOutcome::Undefined => ReadOutcome::Undefined,
        }
    }
}

impl PacketRoundtrip for PlacePartCommand {
    open spec fn spec_fits(v: (u32, CompactTransform, (u32, u32))) -> bool {
        <(PartId, CompactTransform, (NetworkId, NetworkId))>::spec_fits(v)
    }

    proof fn lemma_roundtrip(v: (u32, CompactTransform, (u32, u32)), rest: Seq<u8>) {
        <(PartId, CompactTransform, (NetworkId, NetworkId))>::lemma_roundtrip(v, rest);
    }
}

/// A place-part command is written as its part's id, then the transform, then the
/// network id of the placed part, then the construct's network id; and those bytes, whatever follows them, read back as
/// that message, taking exactly them.
pub proof fn lemma_place_part_command_bytes(m: PlacePartCommand, rest: Seq<u8>)
    ensures
        PlacePartCommand::spec_serialize(m.deep_view()) == u32::spec_serialize(m.part_id.deep_view())
            + CompactTransform::spec_serialize(m.transform)
            + u32::spec_serialize(m.part_network_id.deep_view())
            + u32::spec_serialize(m.construct_network_id.deep_view()),
        PlacePartCommand::spec_deserialize(
            u32::spec_serialize(m.part_id.deep_view())
            + CompactTransform::spec_serialize(m.transform)
            + u32::spec_serialize(m.part_network_id.deep_view())
            + u32::spec_serialize(m.construct_network_id.deep_view()) + rest,
        ) == Decoded::Value(m.deep_view(), (u32::spec_serialize(m.part_id.deep_view())
            + CompactTransform::spec_serialize(m.transform)
            + u32::spec_serialize(m.part_network_id.deep_view())
            + u32::spec_serialize(m.construct_network_id.deep_view())).len()),
{
    let v = m.deep_view();
    assert(PlacePartCommand::spec_serialize(v) =~= u32::spec_serialize(m.part_id.deep_view())
            + CompactTransform::spec_serialize(m.transform)
            + u32::spec_serialize(m.part_network_id.deep_view())
            + u32::spec_serialize(m.construct_network_id.deep_view()));
    PlacePartCommand::lemma_roundtrip(v, rest);
}

impl Message for PlacePartCommand {
    open spec fn spec_packet_type() -> PacketType {
        PacketType::PlacePart
    }

    fn packet_type() -> (packet_type: PacketType) {
        PacketType::PlacePart
    }
}

/// A client's request to delete the part with this network id.
pub struct DeletePartRequest(pub NetworkId);

impl DeepView for DeletePartRequest {
    type V = (u32,);

    open spec fn deep_view(&self) -> (u32,) {
        (self.0.deep_view(),)
    }
}

impl PacketSerialize for DeletePartRequest {
    /// Its fields, in order.
    open spec fn spec_serialize(v: (u32,)) -> Seq<u8> {
        <(NetworkId,)>::spec_serialize(v)
    }

    fn serialize(&self, packet: &mut Packet) {
        self.0.serialize(packet);
        proof {
            assert(packet@.data =~= old(packet)@.data + Self::spec_serialize(self.deep_view()));
        }
    }
}

impl PacketDeserialize for DeletePartRequest {
    open spec fn spec_deserialize(bytes: Seq<u8>) -> Decoded<(u32,)> {
        <(NetworkId,)>::spec_deserialize(bytes)
    }

    proof fn lemma_deserialize_within(bytes: Seq<u8>) {
        <(NetworkId,)>::lemma_deserialize_within(bytes);
    }

    fn read_from(packet: &mut Packet) -> (res: ReadOutcome<DeletePartRequest>) {
        match <(NetworkId,)>::read_from(packet) {
            ReadOutcome::Value(t) => ReadOutcome::Value(DeletePartRequest(t.0)),
            ReadOutcome::Error(e) => ReadOutcome::Error(e),
            ReadOutcome::Undefined => ReadOutcome::Undefined,
        }
    }
}

impl PacketRoundtrip for DeletePartRequest {
    open spec fn spec_fits(v: (u32,)) -> bool {
        <(NetworkId,)>::spec_fits(v)
    }

    proof fn lemma_roundtrip(v: (u32,), rest: Seq<u8>) {
        <(NetworkId,)>::lemma_roundtrip(v, rest);
    }
}

/// A delete-part request is written as the part's network id; and those bytes, whatever follows them, read back as
/// that message, taking exactly them.
pub proof fn lemma_delete_part_request_bytes(m: DeletePartRequest, rest: Seq<u8>)
    ensures
        DeletePartRequest::spec_serialize(m.deep_view()) == u32::spec_serialize(m.0.deep_view()),
        DeletePartRequest::spec_deserialize(
            u32::spec_serialize(m.0.deep_view()) + rest,
        ) == Decoded::Value(m.deep_view(), (u32::spec_serialize(m.0.deep_view())).len()),
{
    let v = m.deep_view();
    assert(DeletePartRequest::spec_serialize(v) =~= u32::spec_serialize(m.0.deep_view()));
    DeletePartRequest::lemma_roundtrip(v, rest);
}

impl Message for DeletePartRequest {
    open spec fn spec_packet_type() -> PacketType {
        PacketType::DeletePart
    }

    fn packet_type() -> (packet_type: PacketType) {
        PacketType::DeletePart
    }
}

/// The server's order to delete the part with this network id.
pub struct DeletePartCommand(pub NetworkId);

impl DeepView for DeletePartCommand {
    type V = (u32,);

    open spec fn deep_view(&self) -> (u32,) {
        (self.0.deep_view(),)
    }
}

impl PacketSerialize for DeletePartCommand {
    /// Its fields, in order.
    open spec fn spec_serialize(v: (u32,)) -> Seq<u8> {
        <(NetworkId,)>::spec_serialize(v)
    }

    fn serialize(&self, packet: &mut Packet) {
        self.0.serialize(packet);
        proof {
            assert(packet@.data =~= old(packet)@.data + Self::spec_serialize(self.deep_view()));
        }
    }
}

impl PacketDeserialize for DeletePartCommand {
    open spec fn spec_deserialize(bytes: Seq<u8>) -> Decoded<(u32,)> {
        <(NetworkId,)>::spec_deserialize(bytes)
    }

    proof fn lemma_deserialize_within(bytes: Seq<u8>) {
        <(NetworkId,)>::lemma_deserialize_within(bytes);
    }

    fn read_from(packet: &mut Packet) -> (res: ReadOutcome<DeletePartCommand>) {
        match <(NetworkId,)>::read_from(packet) {
            ReadOutcome::Value(t) => ReadOutcome::Value(DeletePartCommand(t.0)),
            ReadOutcome::Error(e) => ReadOutcome::Error(e),
            ReadOutcome::Undefined => ReadOutcome::Undefined,
        }
    }
}

impl PacketRoundtrip for DeletePartCommand {
    open spec fn spec_fits(v: (u32,)) -> bool {
        <(NetworkId,)>::spec_fits(v)
    }

    proof fn lemma_roundtrip(v: (u32,), rest: Seq<u8>) {
        <(NetworkId,)>::lemma_roundtrip(v, rest);
    }
}

/// A delete-part command is written as the part's network id; and those bytes, whatever follows them, read back as
/// that message, taking exactly them.
pub proof fn lemma_delete_part_command_bytes(m: DeletePartCommand, rest: Seq<u8>)
    ensures
        DeletePartCommand::spec_serialize(m.deep_view()) == u32::spec_serialize(m.0.deep_view()),
        DeletePartCommand::spec_deserialize(
            u32::spec_serialize(m.0.deep_view()) + rest,
        ) == Decoded::Value(m.deep_view(), (u32::spec_serialize(m.0.deep_view())).len()),
{
    let v = m.deep_view();
    assert(DeletePartCommand::spec_serialize(v) =~= u32::spec_serialize(m.0.deep_view()));
    DeletePartCommand::lemma_roundtrip(v, rest);
}

impl Message for DeletePartCommand {
    open spec fn spec_packet_type() -> PacketType {
        PacketType::DeletePart
    }

    fn packet_type() -> (packet_type: PacketType) {
        PacketType::DeletePart
    }
}

/// New voxels for the part with this network id.
pub struct VoxelUpdate {
    pub network_id: NetworkId,
    pub voxels: Vec<Material>,
}

impl DeepView for VoxelUpdate {
    type V = (u32, Seq<Material>);

    open spec fn deep_view(&self) -> (u32, Seq<Material>) {
        (self.network_id.deep_view(), self.voxels.deep_view())
    }
}

impl PacketSerialize for VoxelUpdate {
    /// Its fields, in order.
    open spec fn spec_serialize(v: (u32, Seq<Material>)) -> Seq<u8> {
        <(NetworkId, Vec<Material>)>::spec_serialize(v)
    }

    fn serialize(&self, packet: &mut Packet) {
        self.network_id.serialize(packet);
        self.voxels.serialize(packet);
        proof {
            assert(packet@.data =~= old(packet)@.data + Self::spec_serialize(self.deep_view()));
        }
    }
}

impl PacketDeserialize for VoxelUpdate {
    open spec fn spec_deserialize(bytes: Seq<u8>) -> Decoded<(u32, Seq<Material>)> {
        <(NetworkId, Vec<Material>)>::spec_deserialize(bytes)
    }

    proof fn lemma_deserialize_within(bytes: Seq<u8>) {
        <(NetworkId, Vec<Material>)>::lemma_deserialize_within(bytes);
    }

    fn read_from(packet: &mut Packet) -> (res: ReadOutcome<VoxelUpdate>) {
        match <(NetworkId, Vec<Material>)>::read_from(packet) {
            ReadOutcome::Value(t) => ReadOutcome::Value(VoxelUpdate { network_id: t.0, voxels: t.1 }),
            ReadOutcome::Error(e) => ReadOutcome::Error(e),
            ReadOutcome::Undefined => ReadOutcome::Undefined,
        }
    }
}

impl PacketRoundtrip for VoxelUpdate {
    open spec fn spec_fits(v: (u32, Seq<Material>)) -> bool {
        <(NetworkId, Vec<Material>)>::spec_fits(v)
    }

    proof fn lemma_roundtrip(v: (u32, Seq<Material>), rest: Seq<u8>) {
        <(NetworkId, Vec<Material>)>::lemma_roundtrip(v, rest);
    }
}

/// A voxel update is written as the part's network id, then its voxels as a vector
/// of materials; and those bytes, whatever follows them, read back as
/// that message, taking exactly them, when it fits its counts.
pub proof fn lemma_voxel_update_bytes(m: VoxelUpdate, rest: Seq<u8>)
    ensures
        VoxelUpdate::spec_serialize(m.deep_view()) == u32::spec_serialize(m.network_id.deep_view())
            + Vec::<Material>::spec_serialize(m.voxels.deep_view()),
        VoxelUpdate::spec_fits(m.deep_view()) ==> VoxelUpdate::spec_deserialize(
            u32::spec_serialize(m.network_id.deep_view())
            + Vec::<Material>::spec_serialize(m.voxels.deep_view()) + rest,
        ) == Decoded::Value(m.deep_view(), (u32::spec_serialize(m.network_id.deep_view())
            + Vec::<Material>::spec_serialize(m.voxels.deep_view())).len()),
{
    let v = m.deep_view();
    assert(VoxelUpdate::spec_serialize(v) =~= u32::spec_serialize(m.network_id.deep_view())
            + Vec::<Material>::spec_serialize(m.voxels.deep_view()));
    if VoxelUpdate::spec_fits(m.deep_view()) {
        VoxelUpdate::lemma_roundtrip(v, rest);
    }
}

impl Message for VoxelUpdate {
    open spec fn spec_packet_type() -> PacketType {
        PacketType::VoxelUpdate
    }

    fn packet_type() -> (packet_type: PacketType) {
        PacketType::VoxelUpdate
    }
}

/// A player joined, with where they stand.
pub struct PlayerConnected {
    pub id: PlayerId,
    pub name: PlayerName,
    pub pos: Vec3Bits,
}

impl DeepView for PlayerConnected {
    type V = (u8, Seq<char>, Vec3Bits);

    open spec fn deep_view(&self) -> (u8, Seq<char>, Vec3Bits) {
        (self.id.deep_view(), self.name.deep_view(), self.pos.deep_view())
    }
}

impl PacketSerialize for PlayerConnected {
    /// Its fields, in order.
    open spec fn spec_serialize(v: (u8, Seq<char>, Vec3Bits)) -> Seq<u8> {
        <(PlayerId, PlayerName, Vec3Bits)>::spec_serialize(v)
    }

    fn serialize(&self, packet: &mut Packet) {
        self.id.serialize(packet);
        self.name.serialize(packet);
        self.pos.serialize(packet);
        proof {
            assert(packet@.data =~= old(packet)@.data + Self::spec_serialize(self.deep_view()));
        }
    }
}

impl PacketDeserialize for PlayerConnected {
    open spec fn spec_deserialize(bytes: Seq<u8>) -> Decoded<(u8, Seq<char>, Vec3Bits)> {
        <(PlayerId, PlayerName, Vec3Bits)>::spec_deserialize(bytes)
    }

    proof fn lemma_deserialize_within(bytes: Seq<u8>) {
        <(PlayerId, PlayerName, Vec3Bits)>::lemma_deserialize_within(bytes);
    }

    fn read_from(packet: &mut Packet) -> (res: ReadOutcome<PlayerConnected>) {
        match <(PlayerId, PlayerName, Vec3Bits)>::read_from(packet) {
            ReadOutcome::Value(t) => ReadOutcome::Value(PlayerConnected { id: t.0, name: t.1, pos: t.2 }),
            ReadOutcome::Error(e) => ReadOutcome::Error(e),
            ReadOutcome::Undefined => ReadOutcome::Undefined,
        }
    }
}

impl PacketRoundtrip for PlayerConnected {
    open spec fn spec_fits(v: (u8, Seq<char>, Vec3Bits)) -> bool {
        <(PlayerId, PlayerName, Vec3Bits)>::spec_fits(v)
    }

    proof fn lemma_roundtrip(v: (u8, Seq<char>, Vec3Bits), rest: Seq<u8>) {
        <(PlayerId, PlayerName, Vec3Bits)>::lemma_roundtrip(v, rest);
    }
}

/// A player's arrival is written as the player's id, then the name, then the position; and those bytes, whatever follows them, read back as
/// that message, taking exactly them, when it fits its counts.
pub proof fn lemma_player_connected_bytes(m: PlayerConnected, rest: Seq<u8>)
    ensures
        PlayerConnected::spec_serialize(m.deep_view()) == u8::spec_serialize(m.id.deep_view())
            + String::spec_serialize(m.name.deep_view())
            + Vec3Bits::spec_serialize(m.pos),
        PlayerConnected::spec_fits(m.deep_view()) ==> PlayerConnected::spec_deserialize(
            u8::spec_serialize(m.id.deep_view())
            + String::spec_serialize(m.name.deep_view())
            + Vec3Bits::spec_serialize(m.pos) + rest,
        ) == Decoded::Value(m.deep_view(), (u8::spec_serialize(m.id.deep_view())
            + String::spec_serialize(m.name.deep_view())
            + Vec3Bits::spec_serialize(m.pos)).len()),
{
    let v = m.deep_view();
    assert(PlayerConnected::spec_serialize(v) =~= u8::spec_serialize(m.id.deep_view())
            + String::spec_serialize(m.name.deep_view())
            + Vec3Bits::spec_serialize(m.pos));
    if PlayerConnected::spec_fits(m.deep_view()) {
        PlayerConnected::lemma_roundtrip(v, rest);
    }
}

impl Message for PlayerConnected {
    open spec fn spec_packet_type() -> PacketType {
        PacketType::PlayerConnected
    }

    fn packet_type() -> (packet_type: PacketType) {
        PacketType::PlayerConnected
    }
}

/// The player with this id left.
pub struct PlayerDisconnected(pub PlayerId);

impl DeepView for PlayerDisconnected {
    type V = (u8,);

    open spec fn deep_view(&self) -> (u8,) {
        (self.0.deep_view(),)
    }
}

impl PacketSerialize for PlayerDisconnected {
    /// Its fields, in order.
    open spec fn spec_serialize(v: (u8,)) -> Seq<u8> {
        <(PlayerId,)>::spec_serialize(v)
    }

    fn serialize(&self, packet: &mut Packet) {
        self.0.serialize(packet);
        proof {
            assert(packet@.data =~= old(packet)@.data + Self::spec_serialize(self.deep_view()));
        }
    }
}

impl PacketDeserialize for PlayerDisconnected {
    open spec fn spec_deserialize(bytes: Seq<u8>) -> Decoded<(u8,)> {
        <(PlayerId,)>::spec_deserialize(bytes)
    }

    proof fn lemma_deserialize_within(bytes: Seq<u8>) {
        <(PlayerId,)>::lemma_deserialize_within(bytes);
    }

    fn read_from(packet: &mut Packet) -> (res: ReadOutcome<PlayerDisconnected>) {
        match <(PlayerId,)>::read_from(packet) {
            ReadOutcome::Value(t) => ReadOutcome::Value(PlayerDisconnected(t.0)),
            ReadOutcome::Error(e) => ReadOutcome::Error(e),
            ReadOutcome::Undefined => ReadOutcome::Undefined,
        }
    }
}

impl PacketRoundtrip for PlayerDisconnected {
    open spec fn spec_fits(v: (u8,)) -> bool {
        <(PlayerId,)>::spec_fits(v)
    }

    proof fn lemma_roundtrip(v: (u8,), rest: Seq<u8>) {
        <(PlayerId,)>::lemma_roundtrip(v, rest);
    }
}

/// A player's departure is written as the player's id; and those bytes, whatever follows them, read back as
/// that message, taking exactly them.
pub proof fn lemma_player_disconnected_bytes(m: PlayerDisconnected, rest: Seq<u8>)
    ensures
        PlayerDisconnected::spec_serialize(m.deep_view()) == u8::spec_serialize(m.0.deep_view()),
        PlayerDisconnected::spec_deserialize(
            u8::spec_serialize(m.0.deep_view()) + rest,
        ) == Decoded::Value(m.deep_view(), (u8::spec_serialize(m.0.deep_view())).len()),
{
    let v = m.deep_view();
    assert(PlayerDisconnected::spec_serialize(v) =~= u8::spec_serialize(m.0.deep_view()));
    PlayerDisconnected::lemma_roundtrip(v, rest);
}

impl Message for PlayerDisconnected {
    open spec fn spec_packet_type() -> PacketType {
        PacketType::PlayerDisconnected
    }

    fn packet_type() -> (packet_type: PacketType) {
        PacketType::PlayerDisconnected
    }
}

/// What a joining client is told: the players, and the construct with its parts.
pub struct InitialState {
    pub players: Vec<(PlayerId, PlayerName)>,
    pub construct_network_id: NetworkId,
    pub parts: Vec<(PartNetworkRepr, CompactTransform, NetworkId)>,
    pub construct_transform: CompactTransform,
}

impl DeepView for InitialState {
    type V = (Seq<(u8, Seq<char>)>, u32, (Seq<(PartNetworkReprView, CompactTransform, u32)>, CompactTransform));

    open spec fn deep_view(&self) -> (Seq<(u8, Seq<char>)>, u32, (Seq<(PartNetworkReprView, CompactTransform, u32)>, CompactTransform)) {
        (self.players.deep_view(), self.construct_network_id.deep_view(), (self.parts.deep_view(), self.construct_transform.deep_view()))
    }
}

impl PacketSerialize for InitialState {
    /// Its fields, in order.
    open spec fn spec_serialize(v: (Seq<(u8, Seq<char>)>, u32, (Seq<(PartNetworkReprView, CompactTransform, u32)>, CompactTransform))) -> Seq<u8> {
        <(Vec<(PlayerId, PlayerName)>, NetworkId, (Vec<(PartNetworkRepr, CompactTransform, NetworkId)>, CompactTransform))>::spec_serialize(v)
    }

    fn serialize(&self, packet: &mut Packet) {
        self.players.serialize(packet);
        self.construct_network_id.serialize(packet);
        self.parts.serialize(packet);
        self.construct_transform.serialize(packet);
        proof {
            assert(packet@.data =~= old(packet)@.data + Self::spec_serialize(self.deep_view()));
        }
    }
}

impl PacketDeserialize for InitialState {
    open spec fn spec_deserialize(bytes: Seq<u8>) -> Decoded<(Seq<(u8, Seq<char>)>, u32, (Seq<(PartNetworkReprView, CompactTransform, u32)>, CompactTransform))> {
        <(Vec<(PlayerId, PlayerName)>, NetworkId, (Vec<(PartNetworkRepr, CompactTransform, NetworkId)>, CompactTransform))>::spec_deserialize(bytes)
    }

    proof fn lemma_deserialize_within(bytes: Seq<u8>) {
        <(Vec<(PlayerId, PlayerName)>, NetworkId, (Vec<(PartNetworkRepr, CompactTransform, NetworkId)>, CompactTransform))>::lemma_deserialize_within(bytes);
    }

    fn read_from(packet: &mut Packet) -> (res: ReadOutcome<InitialState>) {
        match <(Vec<(PlayerId, PlayerName)>, NetworkId, (Vec<(PartNetworkRepr, CompactTransform, NetworkId)>, CompactTransform))>::read_from(packet) {
            ReadOutcome::Value(t) => ReadOutcome::Value(InitialState { players: t.0, construct_network_id: t.1, parts: t.2.0, construct_transform: t.2.1 }),
            ReadOutcome::Error(e) => ReadOutcome::Error(e),
            ReadOutcome::Undefined => ReadOutcome::Undefined,
        }
    }
}

impl PacketRoundtrip for InitialState {
    open spec fn spec_fits(v: (Seq<(u8, Seq<char>)>, u32, (Seq<(PartNetworkReprView, CompactTransform, u32)>, CompactTransform))) -> bool {
        <(Vec<(PlayerId, PlayerName)>, NetworkId, (Vec<(PartNetworkRepr, CompactTransform, NetworkId)>, CompactTransform))>::spec_fits(v)
    }

    proof fn lemma_roundtrip(v: (Seq<(u8, Seq<char>)>, u32, (Seq<(PartNetworkReprView, CompactTransform, u32)>, CompactTransform)), rest: Seq<u8>) {
        <(Vec<(PlayerId, PlayerName)>, NetworkId, (Vec<(PartNetworkRepr, CompactTransform, NetworkId)>, CompactTransform))>::lemma_roundtrip(v, rest);
    }
}

/// The initial state is written as the players, then the construct's network id, then
/// the parts, then the construct's transform; and those bytes, whatever follows them, read back as
/// that message, taking exactly them, when it fits its counts.
pub proof fn lemma_initial_state_bytes(m: InitialState, rest: Seq<u8>)
    ensures
        InitialState::spec_serialize(m.deep_view()) == player_list_bytes(m.players.deep_view())
            + u32::spec_serialize(m.construct_network_id.deep_view())
            + part_list_bytes(m.parts.deep_view())
            + CompactTransform::spec_serialize(m.construct_transform),
        InitialState::spec_fits(m.deep_view()) ==> InitialState::spec_deserialize(
            player_list_bytes(m.players.deep_view())
            + u32::spec_serialize(m.construct_network_id.deep_view())
            + part_list_bytes(m.parts.deep_view())
            + CompactTransform::spec_serialize(m.construct_transform) + rest,
        ) == Decoded::Value(m.deep_view(), (player_list_bytes(m.players.deep_view())
            + u32::spec_serialize(m.construct_network_id.deep_view())
            + part_list_bytes(m.parts.deep_view())
            + CompactTransform::spec_serialize(m.construct_transform)).len()),
{
    let v = m.deep_view();
    assert(InitialState::spec_serialize(v) =~= player_list_bytes(m.players.deep_view())
            + u32::spec_serialize(m.construct_network_id.deep_view())
            + part_list_bytes(m.parts.deep_view())
            + CompactTransform::spec_serialize(m.construct_transform));
    if InitialState::spec_fits(m.deep_view()) {
        InitialState::lemma_roundtrip(v, rest);
    }
}

impl Message for InitialState {
    open spec fn spec_packet_type() -> PacketType {
        PacketType::InitialState
    }

    fn packet_type() -> (packet_type: PacketType) {
        PacketType::InitialState
    }
}

/// A client's request to fire a missile.
pub struct SpawnMissileRequest {
    pub transform: CompactTransform,
    pub velocity: Vec3Bits,
}

impl DeepView for SpawnMissileRequest {
    type V = (CompactTransform, Vec3Bits);

    open spec fn deep_view(&self) -> (CompactTransform, Vec3Bits) {
        (self.transform.deep_view(), self.velocity.deep_view())
    }
}

impl PacketSerialize for SpawnMissileRequest {
    /// Its fields, in order.
    open spec fn spec_serialize(v: (CompactTransform, Vec3Bits)) -> Seq<u8> {
        <(CompactTransform, Vec3Bits)>::spec_serialize(v)
    }

    fn serialize(&self, packet: &mut Packet) {
        self.transform.serialize(packet);
        self.velocity.serialize(packet);
        proof {
            assert(packet@.data =~= old(packet)@.data + Self::spec_serialize(self.deep_view()));
        }
    }
}

impl PacketDeserialize for SpawnMissileRequest {
    open spec fn spec_deserialize(bytes: Seq<u8>) -> Decoded<(CompactTransform, Vec3Bits)> {
        <(CompactTransform, Vec3Bits)>::spec_deserialize(bytes)
    }

    proof fn lemma_deserialize_within(bytes: Seq<u8>) {
        <(CompactTransform, Vec3Bits)>::lemma_deserialize_within(bytes);
    }

    fn read_from(packet: &mut Packet) -> (res: ReadOutcome<SpawnMissileRequest>) {
        match <(CompactTransform, Vec3Bits)>::read_from(packet) {
            ReadOutcome::Value(t) => ReadOutcome::Value(SpawnMissileRequest { transform: t.0, velocity: t.1 }),
            ReadOutcome::Error(e) => ReadOutcome::Error(e),
            ReadOutcome::Undefined => ReadOutcome::Undefined,
        }
    }
}

impl PacketRoundtrip for SpawnMissileRequest {
    open spec fn spec_fits(v: (CompactTransform, Vec3Bits)) -> bool {
        <(CompactTransform, Vec3Bits)>::spec_fits(v)
    }

    proof fn lemma_roundtrip(v: (CompactTransform, Vec3Bits), rest: Seq<u8>) {
        <(CompactTransform, Vec3Bits)>::lemma_roundtrip(v, rest);
    }
}

/// A missile request is written as the missile's transform, then its velocity; and those bytes, whatever follows them, read back as
/// that message, taking exactly them.
pub proof fn lemma_spawn_missile_request_bytes(m: SpawnMissileRequest, rest: Seq<u8>)
    ensures
        SpawnMissileRequest::spec_serialize(m.deep_view()) == CompactTransform::spec_serialize(m.transform)
            + Vec3Bits::spec_serialize(m.velocity),
        SpawnMissileRequest::spec_deserialize(
            CompactTransform::spec_serialize(m.transform)
            + Vec3Bits::spec_serialize(m.velocity) + rest,
        ) == Decoded::Value(m.deep_view(), (CompactTransform::spec_serialize(m.transform)
            + Vec3Bits::spec_serialize(m.velocity)).len()),
{
    let v = m.deep_view();
    assert(SpawnMissileRequest::spec_serialize(v) =~= CompactTransform::spec_serialize(m.transform)
            + Vec3Bits::spec_serialize(m.velocity));
    SpawnMissileRequest::lemma_roundtrip(v, rest);
}

impl Message for SpawnMissileRequest {
    open spec fn spec_packet_type() -> PacketType {
        PacketType::SpawnMissile
    }

    fn packet_type() -> (packet_type: PacketType) {
        PacketType::SpawnMissile
    }
}

/// The server's order to spawn a missile, under the network id it gave it.
pub struct SpawnMissileCommand {
    pub transform: CompactTransform,
    pub velocity: Vec3Bits,
    pub network_id: NetworkId,
}

impl DeepView for SpawnMissileCommand {
    type V = (CompactTransform, Vec3Bits, u32);

    open spec fn deep_view(&self) -> (CompactTransform, Vec3Bits, u32) {
        (self.transform.deep_view(), self.velocity.deep_view(), self.network_id.deep_view())
    }
}

impl PacketSerialize for SpawnMissileCommand {
    /// Its fields, in order.
    open spec fn spec_serialize(v: (CompactTransform, Vec3Bits, u32)) -> Seq<u8> {
        <(CompactTransform, Vec3Bits, NetworkId)>::spec_serialize(v)
    }

    fn serialize(&self, packet: &mut Packet) {
        self.transform.serialize(packet);
        self.velocity.serialize(packet);
        self.network_id.serialize(packet);
        proof {
            assert(packet@.data =~= old(packet)@.data + Self::spec_serialize(self.deep_view()));
        }
    }
}

impl PacketDeserialize for SpawnMissileCommand {
    open spec fn spec_deserialize(bytes: Seq<u8>) -> Decoded<(CompactTransform, Vec3Bits, u32)> {
        <(CompactTransform, Vec3Bits, NetworkId)>::spec_deserialize(bytes)
    }

    proof fn lemma_deserialize_within(bytes: Seq<u8>) {
        <(CompactTransform, Vec3Bits, NetworkId)>::lemma_deserialize_within(bytes);
    }

    fn read_from(packet: &mut Packet) -> (res: ReadOutcome<SpawnMissileCommand>) {
        match <(CompactTransform, Vec3Bits, NetworkId)>::read_from(packet) {
            ReadOutcome::Value(t) => ReadOutcome::Value(SpawnMissileCommand { transform: t.0, velocity: t.1, network_id: t.2 }),
            ReadOutcome::Error(e) => ReadOutcome::Error(e),
            ReadOutcome::Undefined => ReadOutcome::Undefined,
        }
    }
}

impl PacketRoundtrip for SpawnMissileCommand {
    open spec fn spec_fits(v: (CompactTransform, Vec3Bits, u32)) -> bool {
        <(CompactTransform, Vec3Bits, NetworkId)>::spec_fits(v)
    }

    proof fn lemma_roundtrip(v: (CompactTransform, Vec3Bits, u32), rest: Seq<u8>) {
        <(CompactTransform, Vec3Bits, NetworkId)>::lemma_roundtrip(v, rest);
    }
}

/// A missile command is written as the missile's transform, then its velocity, then
/// its network id; and those bytes, whatever follows them, read back as
/// that message, taking exactly them.
pub proof fn lemma_spawn_missile_command_bytes(m: SpawnMissileCommand, rest: Seq<u8>)
    ensures
        SpawnMissileCommand::spec_serialize(m.deep_view()) == CompactTransform::spec_serialize(m.transform)
            + Vec3Bits::spec_serialize(m.velocity)
            + u32::spec_serialize(m.network_id.deep_view()),
        SpawnMissileCommand::spec_deserialize(
            CompactTransform::spec_serialize(m.transform)
            + Vec3Bits::spec_serialize(m.velocity)
            + u32::spec_serialize(m.network_id.deep_view()) + rest,
        ) == Decoded::Value(m.deep_view(), (CompactTransform::spec_serialize(m.transform)
            + Vec3Bits::spec_serialize(m.velocity)
            + u32::spec_serialize(m.network_id.deep_view())).len()),
{
    let v = m.deep_view();
    assert(SpawnMissileCommand::spec_serialize(v) =~= CompactTransform::spec_serialize(m.transform)
            + Vec3Bits::spec_serialize(m.velocity)
            + u32::spec_serialize(m.network_id.deep_view()));
    SpawnMissileCommand::lemma_roundtrip(v, rest);
}

impl Message for SpawnMissileCommand {
    open spec fn spec_packet_type() -> PacketType {
        PacketType::SpawnMissile
    }

    fn packet_type() -> (packet_type: PacketType) {
        PacketType::SpawnMissile
    }
}

/// The server's order to blow up the missile with this network id.
pub struct ExplodeMissileCommand {
    pub network_id: NetworkId,
    pub transform: CompactTransform,
}

impl DeepView for ExplodeMissileCommand {
    type V = (u32, CompactTransform);

    open spec fn deep_view(&self) -> (u32, CompactTransform) {
        (self.network_id.deep_view(), self.transform.deep_view())
    }
}

impl PacketSerialize for ExplodeMissileCommand {
    /// Its fields, in order.
    open spec fn spec_serialize(v: (u32, CompactTransform)) -> Seq<u8> {
        <(NetworkId, CompactTransform)>::spec_serialize(v)
    }

    fn serialize(&self, packet: &mut Packet) {
        self.network_id.serialize(packet);
        self.transform.serialize(packet);
        proof {
            assert(packet@.data =~= old(packet)@.data + Self::spec_serialize(self.deep_view()));
        }
    }
}

impl PacketDeserialize for ExplodeMissileCommand {
    open spec fn spec_deserialize(bytes: Seq<u8>) -> Decoded<(u32, CompactTransform)> {
        <(NetworkId, CompactTransform)>::spec_deserialize(bytes)
    }

    proof fn lemma_deserialize_within(bytes: Seq<u8>) {
        <(NetworkId, CompactTransform)>::lemma_deserialize_within(bytes);
    }

    fn read_from(packet: &mut Packet) -> (res: ReadOutcome<ExplodeMissileCommand>) {
        match <(NetworkId, CompactTransform)>::read_from(packet) {
            ReadOutcome::Value(t) => ReadOutcome::Value(ExplodeMissileCommand { network_id: t.0, transform: t.1 }),
            ReadOutcome::Error(e) => ReadOutcome::Error(e),
            ReadOutcome::Undefined => ReadOutcome::Undefined,
        }
    }
}

impl PacketRoundtrip for ExplodeMissileCommand {
    open spec fn spec_fits(v: (u32, CompactTransform)) -> bool {
        <(NetworkId, CompactTransform)>::spec_fits(v)
    }

    proof fn lemma_roundtrip(v: (u32, CompactTransform), rest: Seq<u8>) {
        <(NetworkId, CompactTransform)>::lemma_roundtrip(v, rest);
    }
}

/// A missile's explosion is written as its network id, then where it exploded; and those bytes, whatever follows them, read back as
/// that message, taking exactly them.
pub proof fn lemma_explode_missile_command_bytes(m: ExplodeMissileCommand, rest: Seq<u8>)
    ensures
        ExplodeMissileCommand::spec_serialize(m.deep_view()) == u32::spec_serialize(m.network_id.deep_view())
            + CompactTransform::spec_serialize(m.transform),
        ExplodeMissileCommand::spec_deserialize(
            u32::spec_serialize(m.network_id.deep_view())
            + CompactTransform::spec_serialize(m.transform) + rest,
        ) == Decoded::Value(m.deep_view(), (u32::spec_serialize(m.network_id.deep_view())
            + CompactTransform::spec_serialize(m.transform)).len()),
{
    let v = m.deep_view();
    assert(ExplodeMissileCommand::spec_serialize(v) =~= u32::spec_serialize(m.network_id.deep_view())
            + CompactTransform::spec_serialize(m.transform));
    ExplodeMissileCommand::lemma_roundtrip(v, rest);
}

impl Message for ExplodeMissileCommand {
    open spec fn spec_packet_type() -> PacketType {
        PacketType::ExplodeMissile
    }

    fn packet_type() -> (packet_type: PacketType) {
        PacketType::ExplodeMissile
    }
}

} // verus!
