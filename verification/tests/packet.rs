use ship_designer::channels::Channel;
use ship_designer::packet::{Packet, PacketError, PacketType};

#[test]
fn new_packet_is_empty_with_its_type() {
    let packet = Packet::new(PacketType::SpawnMissile);
    assert_eq!(packet.packet_type(), PacketType::SpawnMissile);
    assert_eq!(packet.to_bytes(), vec![6]);
}

#[test]
fn written_bytes_are_read_back_in_order() {
    let mut packet = Packet::new(PacketType::PlacePart);
    packet.write_bytes(&[1, 2, 3]);
    packet.write_bytes(&[4]);
    assert_eq!(packet.next_bytes(2).unwrap(), &[1, 2]);
    assert_eq!(packet.next_bytes(2).unwrap(), &[3, 4]);
    assert_eq!(packet.next_bytes(0).unwrap(), &[] as &[u8]);
}

#[test]
fn reading_too_many_bytes_fails_and_keeps_the_cursor() {
    let mut packet = Packet::new(PacketType::PlacePart);
    packet.write_bytes(&[1, 2, 3]);
    match packet.next_bytes(4) {
        Err(PacketError::BoundsError(p)) => assert_eq!(p.to_bytes(), vec![0, 1, 2, 3]),
        _ => panic!("four bytes are not there"),
    }
    assert_eq!(packet.next_bytes(3).unwrap(), &[1, 2, 3]);
}

#[test]
fn type_bytes() {
    let all = [
        PacketType::PlacePart,
        PacketType::DeletePart,
        PacketType::InitialState,
        PacketType::PlayerConnected,
        PacketType::PlayerDisconnected,
        PacketType::VoxelUpdate,
        PacketType::SpawnMissile,
        PacketType::ExplodeMissile,
    ];
    for (i, t) in all.iter().enumerate() {
        assert_eq!(t.to_u8() as usize, i);
        assert_eq!(PacketType::try_from_u8(i as u8), Some(*t));
    }
    assert_eq!(PacketType::try_from_u8(8), None);
}

#[test]
fn framed_packet_is_received_with_its_bytes() {
    let mut packet = Packet::new(PacketType::ExplodeMissile);
    packet.write_bytes(&[9, 8]);
    let bytes = packet.to_bytes();
    assert_eq!(bytes, vec![7, 9, 8]);
    let mut received = Packet::try_from_bytes(bytes).unwrap();
    assert_eq!(received.packet_type(), PacketType::ExplodeMissile);
    assert_eq!(received.next_bytes(2).unwrap(), &[9, 8]);
    assert!(received.next_bytes(1).is_err());
}

#[test]
fn empty_message_is_refused() {
    match Packet::try_from_bytes(Vec::new()) {
        Err(PacketError::EmptyPacket) => {}
        _ => panic!("no bytes make no packet"),
    }
}

#[test]
fn unknown_type_is_refused() {
    match Packet::try_from_bytes(vec![200, 1]) {
        Err(PacketError::InvalidTypeError(200)) => {}
        _ => panic!("200 names no type"),
    }
}

#[test]
fn duplicate_keeps_the_cursor() {
    let mut packet = Packet::new(PacketType::DeletePart);
    packet.write_bytes(&[1, 2]);
    packet.next_bytes(1).unwrap();
    let mut copy = packet.duplicate();
    assert_eq!(copy.next_bytes(1).unwrap(), &[2]);
}

#[test]
fn channel_numbers() {
    assert_eq!(Channel::PlayerConnectionEvents.to_usize(), 0);
    assert_eq!(Channel::PartCommands.to_usize(), 1);
    assert_eq!(Channel::Missile.to_usize(), 2);
}
