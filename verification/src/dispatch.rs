//! What a client makes of what reaches it from the server.

use vstd::prelude::*;

use crate::codec::{Decoded, PacketDeserialize, PacketRoundtrip, PacketSerialize, ReadOutcome};
use crate::messages::{
    lemma_place_part_command_bytes, DeletePartCommand, ExplodeMissileCommand, InitialState, PlacePartCommand, PlayerConnected,
    PlayerDisconnected, SpawnMissileCommand, VoxelUpdate,
};
use crate::transform::CompactTransform;
use crate::packet::{max_packet_len, spec_frame, spec_unframe, lemma_frame_roundtrip, Packet, PacketError, PacketType, PacketView};

verus! {

/// A message from the server, by the type of the packet that carried it.
pub enum ServerEvent {
    PlacePart(PlacePartCommand),
    DeletePart(DeletePartCommand),
    PlayerConnected(PlayerConnected),
    PlayerDisconnected(PlayerDisconnected),
    InitialState(InitialState),
    VoxelUpdate(VoxelUpdate),
    SpawnMissile(SpawnMissileCommand),
    ExplodeMissile(ExplodeMissileCommand),
}

/// What a message from the server is.
pub enum ServerEventView {
    PlacePart(<PlacePartCommand as DeepView>::V),
    DeletePart(<DeletePartCommand as DeepView>::V),
    PlayerConnected(<PlayerConnected as DeepView>::V),
    PlayerDisconnected(<PlayerDisconnected as DeepView>::V),
    InitialState(<InitialState as DeepView>::V),
    VoxelUpdate(<VoxelUpdate as DeepView>::V),
    SpawnMissile(<SpawnMissileCommand as DeepView>::V),
    ExplodeMissile(<ExplodeMissileCommand as DeepView>::V),
}

impl DeepView for ServerEvent {
    type V = ServerEventView;

    open spec fn deep_view(&self) -> ServerEventView {
        match self {
            ServerEvent::PlacePart(m) => ServerEventView::PlacePart(m.deep_view()),
            ServerEvent::DeletePart(m) => ServerEventView::DeletePart(m.deep_view()),
            ServerEvent::PlayerConnected(m) => ServerEventView::PlayerConnected(m.deep_view()),
            ServerEvent::PlayerDisconnected(m) => ServerEventView::PlayerDisconnected(m.deep_view()),
            ServerEvent::InitialState(m) => ServerEventView::InitialState(m.deep_view()),
            ServerEvent::VoxelUpdate(m) => ServerEventView::VoxelUpdate(m.deep_view()),
            ServerEvent::SpawnMissile(m) => ServerEventView::SpawnMissile(m.deep_view()),
            ServerEvent::ExplodeMissile(m) => ServerEventView::ExplodeMissile(m.deep_view()),
        }
    }
}

/// What reading a message from the server gives, for a packet of type
/// `packet_type` whose unread bytes are `bytes`: the message its type calls for.
pub open spec fn spec_server_event(packet_type: PacketType, bytes: Seq<u8>) -> Decoded<ServerEventView> {
    match packet_type {
        PacketType::PlacePart => PlacePartCommand::spec_deserialize(bytes).map(
            |m: <PlacePartCommand as DeepView>::V| ServerEventView::PlacePart(m),
        ),
        PacketType::DeletePart => DeletePartCommand::spec_deserialize(bytes).map(
            |m: <DeletePartCommand as DeepView>::V| ServerEventView::DeletePart(m),
        ),
        PacketType::PlayerConnected => PlayerConnected::spec_deserialize(bytes).map(
            |m: <PlayerConnected as DeepView>::V| ServerEventView::PlayerConnected(m),
        ),
        PacketType::PlayerDisconnected => PlayerDisconnected::spec_deserialize(bytes).map(
            |m: <PlayerDisconnected as DeepView>::V| ServerEventView::PlayerDisconnected(m),
        ),
        PacketType::InitialState => InitialState::spec_deserialize(bytes).map(
            |m: <InitialState as DeepView>::V| ServerEventView::InitialState(m),
        ),
        PacketType::VoxelUpdate => VoxelUpdate::spec_deserialize(bytes).map(
            |m: <VoxelUpdate as DeepView>::V| ServerEventView::VoxelUpdate(m),
        ),
        PacketType::SpawnMissile => SpawnMissileCommand::spec_deserialize(bytes).map(
            |m: <SpawnMissileCommand as DeepView>::V| ServerEventView::SpawnMissile(m),
        ),
        PacketType::ExplodeMissile => ExplodeMissileCommand::spec_deserialize(bytes).map(
            |m: <ExplodeMissileCommand as DeepView>::V| ServerEventView::ExplodeMissile(m),
        ),
    }
}

/// The packet type a message from the server travels in.
pub open spec fn spec_event_type(e: ServerEventView) -> PacketType {
    match e {
        ServerEventView::PlacePart(_) => PacketType::PlacePart,
        ServerEventView::DeletePart(_) => PacketType::DeletePart,
        ServerEventView::PlayerConnected(_) => PacketType::PlayerConnected,
        ServerEventView::PlayerDisconnected(_) => PacketType::PlayerDisconnected,
        ServerEventView::InitialState(_) => PacketType::InitialState,
        ServerEventView::VoxelUpdate(_) => PacketType::VoxelUpdate,
        ServerEventView::SpawnMissile(_) => PacketType::SpawnMissile,
        ServerEventView::ExplodeMissile(_) => PacketType::ExplodeMissile,
    }
}

/// The bytes a message from the server is written as.
pub open spec fn spec_event_bytes(e: ServerEventView) -> Seq<u8> {
    match e {
        ServerEventView::PlacePart(m) => PlacePartCommand::spec_serialize(m),
        ServerEventView::DeletePart(m) => DeletePartCommand::spec_serialize(m),
        ServerEventView::PlayerConnected(m) => PlayerConnected::spec_serialize(m),
        ServerEventView::PlayerDisconnected(m) => PlayerDisconnected::spec_serialize(m),
        ServerEventView::InitialState(m) => InitialState::spec_serialize(m),
        ServerEventView::VoxelUpdate(m) => VoxelUpdate::spec_serialize(m),
        ServerEventView::SpawnMissile(m) => SpawnMissileCommand::spec_serialize(m),
        ServerEventView::ExplodeMissile(m) => ExplodeMissileCommand::spec_serialize(m),
    }
}

/// The messages that read back as written.
pub open spec fn spec_event_fits(e: ServerEventView) -> bool {
    match e {
        ServerEventView::PlacePart(m) => PlacePartCommand::spec_fits(m),
        ServerEventView::DeletePart(m) => DeletePartCommand::spec_fits(m),
        ServerEventView::PlayerConnected(m) => PlayerConnected::spec_fits(m),
        ServerEventView::PlayerDisconnected(m) => PlayerDisconnected::spec_fits(m),
        ServerEventView::InitialState(m) => InitialState::spec_fits(m),
        ServerEventView::VoxelUpdate(m) => VoxelUpdate::spec_fits(m),
        ServerEventView::SpawnMissile(m) => SpawnMissileCommand::spec_fits(m),
        ServerEventView::ExplodeMissile(m) => ExplodeMissileCommand::spec_fits(m),
    }
}

/// `res` is what the outcome `d` of a read from a packet whose state was `old` calls for.
pub open spec fn read_outcome<T: DeepView>(old: PacketView, d: Decoded<T::V>, res: ReadOutcome<T>) -> bool {
    match d {
        Decoded::Value(v, n) => res matches ReadOutcome::Value(x) && x.deep_view() == v,
        Decoded::OutOfBounds(n) => res matches ReadOutcome::Error(PacketError::BoundsError(p)) && p@
            == old.advanced(n as int),
        Decoded::Invalid(n) => res matches ReadOutcome::Error(PacketError::InvalidPacketError(p))
            && p@ == old.advanced(n as int),
        Decoded::Undefined => res is Undefined,
    }
}

/// The message a packet from the server carries, read at its cursor as its type
/// calls for. `Undefined` stands for bytes that have no reading.
pub fn generate_event(packet: Packet) -> (res: ReadOutcome<ServerEvent>)
    requires
        packet@.well_formed(),
    ensures
        read_outcome(packet@, spec_server_event(packet@.packet_type, packet@.unread()), res),
{
    let mut packet = packet;
    match packet.packet_type() {
        PacketType::PlacePart => match PlacePartCommand::read_from(&mut packet) {
            ReadOutcome::Value(m) => ReadOutcome::Value(ServerEvent::PlacePart(m)),
            ReadOutcome::Error(e) => ReadOutcome::Error(e),
            ReadOutcome::Undefined => ReadOutcome::Undefined,
        },
        PacketType::DeletePart => match DeletePartCommand::read_from(&mut packet) {
            ReadOutcome::Value(m) => ReadOutcome::Value(ServerEvent::DeletePart(m)),
            ReadOutcome::Error(e) => ReadOutcome::Error(e),
            ReadOutcome::Undefined => ReadOutcome::Undefined,
        },
        PacketType::PlayerConnected => match PlayerConnected::read_from(&mut packet) {
            ReadOutcome::Value(m) => ReadOutcome::Value(ServerEvent::PlayerConnected(m)),
            ReadOutcome::Error(e) => ReadOutcome::Error(e),
            ReadOutcome::Undefined => ReadOutcome::Undefined,
        },
        PacketType::PlayerDisconnected => match PlayerDisconnected::read_from(&mut packet) {
            ReadOutcome::Value(m) => ReadOutcome::Value(ServerEvent::PlayerDisconnected(m)),
            ReadOutcome::Error(e) => ReadOutcome::Error(e),
            ReadOutcome::Undefined => ReadOutcome::Undefined,
        },
        PacketType::InitialState => match InitialState::read_from(&mut packet) {
            ReadOutcome::Value(m) => ReadOutcome::Value(ServerEvent::InitialState(m)),
            ReadOutcome::Error(e) => ReadOutcome::Error(e),
            ReadOutcome::Undefined => ReadOutcome::Undefined,
        },
        PacketType::VoxelUpdate => match VoxelUpdate::read_from(&mut packet) {
            ReadOutcome::Value(m) => ReadOutcome::Value(ServerEvent::VoxelUpdate(m)),
            ReadOutcome::Error(e) => ReadOutcome::Error(e),
            ReadOutcome::Undefined => ReadOutcome::Undefined,
        },
        PacketType::SpawnMissile => match SpawnMissileCommand::read_from(&mut packet) {
            ReadOutcome::Value(m) => ReadOutcome::Value(ServerEvent::SpawnMissile(m)),
            ReadOutcome::Error(e) => ReadOutcome::Error(e),
            ReadOutcome::Undefined => ReadOutcome::Undefined,
        },
        PacketType::ExplodeMissile => match ExplodeMissileCommand::read_from(&mut packet) {
            ReadOutcome::Value(m) => ReadOutcome::Value(ServerEvent::ExplodeMissile(m)),
            ReadOutcome::Error(e) => ReadOutcome::Error(e),
            ReadOutcome::Undefined => ReadOutcome::Undefined,
        },
    }
}

/// A message from the server, sent in a packet of its type and received, reads
/// back as the message sent, taking all the bytes after the type's byte.
pub proof fn lemma_server_event_roundtrip(e: ServerEventView)
    requires
        spec_event_fits(e),
    ensures
        spec_unframe(
            spec_frame(PacketView { data: spec_event_bytes(e), index: 0, packet_type: spec_event_type(e) }),
        ) matches Some(p) && p.packet_type == spec_event_type(e) && spec_server_event(
            p.packet_type,
            p.unread(),
        ) == Decoded::Value(e, spec_event_bytes(e).len()),
{
    let sent = PacketView { data: spec_event_bytes(e), index: 0, packet_type: spec_event_type(e) };
    lemma_frame_roundtrip(sent);
    let bytes = spec_event_bytes(e);
    assert(bytes + Seq::<u8>::empty() =~= bytes);
    match e {
        ServerEventView::PlacePart(m) => PlacePartCommand::lemma_roundtrip(m, Seq::empty()),
        ServerEventView::DeletePart(m) => DeletePartCommand::lemma_roundtrip(m, Seq::empty()),
        ServerEventView::PlayerConnected(m) => PlayerConnected::lemma_roundtrip(m, Seq::empty()),
        ServerEventView::PlayerDisconnected(m) => PlayerDisconnected::lemma_roundtrip(m, Seq::empty()),
        ServerEventView::InitialState(m) => InitialState::lemma_roundtrip(m, Seq::empty()),
        ServerEventView::VoxelUpdate(m) => VoxelUpdate::lemma_roundtrip(m, Seq::empty()),
        ServerEventView::SpawnMissile(m) => SpawnMissileCommand::lemma_roundtrip(m, Seq::empty()),
        ServerEventView::ExplodeMissile(m) => ExplodeMissileCommand::lemma_roundtrip(m, Seq::empty()),
    }
}

/// Why the connection to the server failed.
pub enum ConnectionError {
    Timeout,
    Version,
    Config,
    ServerFull,
}

/// What the connection to the server reports at a step.
pub enum ConnectionEvent {
    Connect,
    Disconnect,
    /// The bytes of one message as they came.
    Receive(Vec<u8>),
    Error(ConnectionError),
}

/// Why the client stops.
pub enum ExitReason {
    Disconnected,
    Failed(ConnectionError),
}

/// What the client does about what the connection reports.
pub enum Reaction {
    /// The connection is up.
    Connected,
    /// The client stops.
    Exit(ExitReason),
    /// A message arrived, to hand on.
    Deliver(ServerEvent),
    /// The bytes received were refused, for the reason given.
    Reject(PacketError),
    /// The bytes received have no reading at all.
    Malformed,
}

/// The reaction to receiving `bytes`: refused when they hold no packet, else what
/// reading the message their type calls for gives.
pub open spec fn reaction_to_bytes(bytes: Seq<u8>, reaction: Reaction) -> bool {
    match spec_unframe(bytes) {
        None => if bytes.len() == 0 {
            reaction matches Reaction::Reject(PacketError::EmptyPacket)
        } else {
            reaction matches Reaction::Reject(PacketError::InvalidTypeError(b)) && b == bytes[0]
        },
        Some(p) => match spec_server_event(p.packet_type, p.unread()) {
            Decoded::Value(v, n) => reaction matches Reaction::Deliver(e) && e.deep_view() == v,
            Decoded::OutOfBounds(n) => reaction matches Reaction::Reject(PacketError::BoundsError(q))
                && q@ == p.advanced(n as int),
            Decoded::Invalid(n) => reaction matches Reaction::Reject(
                PacketError::InvalidPacketError(q),
            ) && q@ == p.advanced(n as int),
            Decoded::Undefined => reaction is Malformed,
        },
    }
}

/// What the client does about one report of its connection: it stops when the
/// connection ends or fails, and hands on each message that arrives whole.
pub fn react(event: ConnectionEvent) -> (reaction: Reaction)
    requires
        event matches ConnectionEvent::Receive(bytes) ==> bytes@.len() <= max_packet_len(),
    ensures
        event is Connect ==> reaction is Connected,
        event is Disconnect ==> reaction matches Reaction::Exit(ExitReason::Disconnected),
        event matches ConnectionEvent::Error(e) ==> (reaction matches Reaction::Exit(
            ExitReason::Failed(f),
        ) && f == e),
        event matches ConnectionEvent::Receive(bytes) ==> reaction_to_bytes(bytes@, reaction),
{
    match event {
        ConnectionEvent::Connect => Reaction::Connected,
        ConnectionEvent::Disconnect => Reaction::Exit(ExitReason::Disconnected),
        ConnectionEvent::Error(e) => Reaction::Exit(ExitReason::Failed(e)),
        ConnectionEvent::Receive(data) => match Packet::try_from_bytes(data) {
            Ok(packet) => match generate_event(packet) {
                ReadOutcome::Value(e) => Reaction::Deliver(e),
                ReadOutcome::Error(err) => Reaction::Reject(err),
                ReadOutcome::Undefined => Reaction::Malformed,
            },
            Err(err) => Reaction::Reject(err),
        },
    }
}

/// Bytes received that start with the place-part byte, 0, and go on with the part's
/// id, the transform, the placed part's network id and the construct's network id
/// are handed on as a place-part command with each of those fields as written.
pub proof fn lemma_place_part_delivered(m: PlacePartCommand, reaction: Reaction)
    requires
        reaction_to_bytes(
            seq![0u8] + u32::spec_serialize(m.part_id.deep_view()) + CompactTransform::spec_serialize(
                m.transform,
            ) + u32::spec_serialize(m.part_network_id.deep_view()) + u32::spec_serialize(
                m.construct_network_id.deep_view(),
            ),
            reaction,
        ),
    ensures
        reaction matches Reaction::Deliver(ServerEvent::PlacePart(c)) && c.part_id.deep_view()
            == m.part_id.deep_view() && c.transform == m.transform && c.part_network_id.deep_view()
            == m.part_network_id.deep_view() && c.construct_network_id.deep_view()
            == m.construct_network_id.deep_view(),
{
    let body = u32::spec_serialize(m.part_id.deep_view()) + CompactTransform::spec_serialize(
        m.transform,
    ) + u32::spec_serialize(m.part_network_id.deep_view()) + u32::spec_serialize(
        m.construct_network_id.deep_view(),
    );
    let bytes = seq![0u8] + u32::spec_serialize(m.part_id.deep_view()) + CompactTransform::spec_serialize(
        m.transform,
    ) + u32::spec_serialize(m.part_network_id.deep_view()) + u32::spec_serialize(
        m.construct_network_id.deep_view(),
    );
    lemma_place_part_command_bytes(m, Seq::empty());
    assert(body + Seq::<u8>::empty() =~= body);
    assert(bytes =~= seq![0u8] + body);
    assert(bytes[0] == 0);
    let p = PacketView { data: bytes, index: 1, packet_type: PacketType::PlacePart };
    assert(spec_unframe(bytes) == Some(p));
    assert(p.unread() =~= body);
}

} // verus!
