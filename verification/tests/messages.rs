use ship_designer::codec::ReadOutcome;
use ship_designer::dispatch::{
    generate_event, react, ConnectionError, ConnectionEvent, ExitReason, Reaction, ServerEvent,
};
use ship_designer::ids::{NetworkId, PartId, PlayerId, PlayerName};
use ship_designer::materials::Material;
use ship_designer::messages::{
    to_packet, try_from_packet, DeletePartCommand, DeletePartRequest, ExplodeMissileCommand,
    InitialState, PlacePartCommand, PlacePartRequest, PlayerConnected, PlayerDisconnected,
    SpawnMissileCommand, SpawnMissileRequest, VoxelUpdate,
};
use ship_designer::packet::{Packet, PacketError, PacketType};
use ship_designer::part::{Part, PartNetworkRepr};
use ship_designer::transform::{CompactTransform, QuatBits, Vec3Bits};

fn transform(k: u32) -> CompactTransform {
    CompactTransform::new(Vec3Bits::new(k, k + 1, k + 2), QuatBits::new(0, 0, 0, 1.0f32.to_bits()))
}

fn received(packet: &Packet) -> Packet {
    Packet::try_from_bytes(packet.to_bytes()).unwrap()
}

#[test]
fn place_part_request_round_trip() {
    let request = PlacePartRequest {
        part_id: PartId::from(1),
        part_transform: transform(5),
        construct_network_id: NetworkId::from(77),
    };
    let packet = to_packet(&request);
    assert_eq!(packet.packet_type(), PacketType::PlacePart);
    let back: PlacePartRequest = try_from_packet(received(&packet)).unwrap();
    assert_eq!(back.part_id, PartId::from(1));
    assert_eq!(back.part_transform, transform(5));
    assert_eq!(back.construct_network_id, NetworkId::from(77));
}

#[test]
fn delete_part_request_bytes() {
    let packet = to_packet(&DeletePartRequest(NetworkId::from(0x0102)));
    assert_eq!(packet.to_bytes(), vec![1, 2, 1, 0, 0]);
}

#[test]
fn spawn_missile_request_round_trip() {
    let request = SpawnMissileRequest { transform: transform(1), velocity: Vec3Bits::new(0, 100.0f32.to_bits(), 0) };
    let packet = to_packet(&request);
    assert_eq!(packet.packet_type(), PacketType::SpawnMissile);
    let back: SpawnMissileRequest = try_from_packet(received(&packet)).unwrap();
    assert_eq!(f32::from_bits(back.velocity.y), 100.0);
}

#[test]
fn truncated_message_is_a_bounds_error() {
    let mut bytes = to_packet(&DeletePartCommand(NetworkId::from(3))).to_bytes();
    bytes.pop();
    match try_from_packet::<DeletePartCommand>(Packet::try_from_bytes(bytes).unwrap()) {
        Err(PacketError::BoundsError(_)) => {}
        _ => panic!("three bytes hold no network id"),
    }
}

#[test]
fn each_server_message_is_received_as_sent() {
    let packets = vec![
        to_packet(&PlacePartCommand {
            part_id: PartId::from(2),
            transform: transform(3),
            part_network_id: NetworkId::from(4),
            construct_network_id: NetworkId::from(5),
        }),
        to_packet(&DeletePartCommand(NetworkId::from(6))),
        to_packet(&PlayerConnected {
            id: PlayerId::from(7),
            name: PlayerName::from("bo".to_string()),
            pos: Vec3Bits::new(1, 2, 3),
        }),
        to_packet(&PlayerDisconnected(PlayerId::from(8))),
        to_packet(&InitialState {
            players: vec![(PlayerId::from(1), PlayerName::from("al".to_string()))],
            construct_network_id: NetworkId::from(9),
            parts: vec![
                (PartNetworkRepr::Predefined(PartId::from(0)), transform(1), NetworkId::from(10)),
                (
                    PartNetworkRepr::Child(Part::new(1, 1, 1, vec![Material::Aluminum], Some(PartId::from(0)))),
                    transform(2),
                    NetworkId::from(11),
                ),
            ],
            construct_transform: transform(4),
        }),
        to_packet(&VoxelUpdate { network_id: NetworkId::from(12), voxels: vec![Material::Empty, Material::Aluminum] }),
        to_packet(&SpawnMissileCommand { transform: transform(6), velocity: Vec3Bits::new(7, 8, 9), network_id: NetworkId::from(13) }),
        to_packet(&ExplodeMissileCommand { network_id: NetworkId::from(14), transform: transform(8) }),
    ];
    let mut kinds = Vec::new();
    for packet in packets.iter() {
        match react(ConnectionEvent::Receive(packet.to_bytes())) {
            Reaction::Deliver(event) => kinds.push(event),
            _ => panic!("a message sent whole arrives whole"),
        }
    }
    match &kinds[0] {
        ServerEvent::PlacePart(c) => {
            assert_eq!(c.part_network_id, NetworkId::from(4));
            assert_eq!(c.construct_network_id, NetworkId::from(5));
        }
        _ => panic!("wrong kind"),
    }
    match &kinds[1] {
        ServerEvent::DeletePart(c) => assert_eq!(c.0, NetworkId::from(6)),
        _ => panic!("wrong kind"),
    }
    match &kinds[2] {
        ServerEvent::PlayerConnected(c) => {
            assert_eq!(c.name.to_string(), "bo");
            assert_eq!(c.pos, Vec3Bits::new(1, 2, 3));
        }
        _ => panic!("wrong kind"),
    }
    match &kinds[3] {
        ServerEvent::PlayerDisconnected(c) => assert_eq!(c.0, PlayerId::from(8)),
        _ => panic!("wrong kind"),
    }
    match &kinds[4] {
        ServerEvent::InitialState(s) => {
            assert_eq!(s.players.len(), 1);
            assert_eq!(s.players[0].1.to_string(), "al");
            assert_eq!(s.parts.len(), 2);
            assert_eq!(s.parts[1].2, NetworkId::from(11));
            match &s.parts[1].0 {
                PartNetworkRepr::Child(p) => assert_eq!(p.voxels(), &[Material::Aluminum]),
                _ => panic!("the second part was sent whole"),
            }
            assert_eq!(s.construct_transform, transform(4));
        }
        _ => panic!("wrong kind"),
    }
    match &kinds[5] {
        ServerEvent::VoxelUpdate(u) => assert_eq!(u.voxels, vec![Material::Empty, Material::Aluminum]),
        _ => panic!("wrong kind"),
    }
    match &kinds[6] {
        ServerEvent::SpawnMissile(c) => assert_eq!(c.network_id, NetworkId::from(13)),
        _ => panic!("wrong kind"),
    }
    match &kinds[7] {
        ServerEvent::ExplodeMissile(c) => assert_eq!(c.transform, transform(8)),
        _ => panic!("wrong kind"),
    }
}

#[test]
fn request_of_a_shared_type_reads_as_the_command() {
    // a delete request and a delete command share their packet type and bytes
    let packet = to_packet(&DeletePartRequest(NetworkId::from(21)));
    match generate_event(received(&packet)) {
        ReadOutcome::Value(ServerEvent::DeletePart(c)) => assert_eq!(c.0, NetworkId::from(21)),
        _ => panic!("a delete packet reads as a delete command"),
    }
}

#[test]
fn connection_reports() {
    assert!(matches!(react(ConnectionEvent::Connect), Reaction::Connected));
    assert!(matches!(react(ConnectionEvent::Disconnect), Reaction::Exit(ExitReason::Disconnected)));
    assert!(matches!(
        react(ConnectionEvent::Error(ConnectionError::ServerFull)),
        Reaction::Exit(ExitReason::Failed(ConnectionError::ServerFull))
    ));
    assert!(matches!(
        react(ConnectionEvent::Error(ConnectionError::Timeout)),
        Reaction::Exit(ExitReason::Failed(ConnectionError::Timeout))
    ));
}

#[test]
fn bad_bytes_are_rejected() {
    assert!(matches!(react(ConnectionEvent::Receive(vec![])), Reaction::Reject(PacketError::EmptyPacket)));
    assert!(matches!(
        react(ConnectionEvent::Receive(vec![42])),
        Reaction::Reject(PacketError::InvalidTypeError(42))
    ));
    assert!(matches!(
        react(ConnectionEvent::Receive(vec![4, 1])),
        Reaction::Deliver(ServerEvent::PlayerDisconnected(_))
    ));
    assert!(matches!(react(ConnectionEvent::Receive(vec![4])), Reaction::Reject(PacketError::BoundsError(_))));
    // a voxel update whose material byte names no material
    assert!(matches!(
        react(ConnectionEvent::Receive(vec![5, 0, 0, 0, 0, 1, 0, 0, 0, 0, 0, 0, 0, 7])),
        Reaction::Reject(PacketError::InvalidPacketError(_))
    ));
    // a player's position given as two floats
    let mut bytes = vec![3, 1, 0, 0, 2, 0, 0, 0, 0, 0, 0, 0];
    bytes.extend_from_slice(&[0; 8]);
    assert!(matches!(react(ConnectionEvent::Receive(bytes)), Reaction::Malformed));
}
