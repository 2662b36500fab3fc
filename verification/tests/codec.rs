use ship_designer::codec::{PacketDeserialize, PacketSerialize, ReadOutcome};
use ship_designer::grid::GridPos;
use ship_designer::ids::{NetworkId, PartId, PlayerId, PlayerName};
use ship_designer::materials::Material;
use ship_designer::packet::{Packet, PacketError, PacketType};
use ship_designer::part::{Part, PartNetworkRepr};
use ship_designer::transform::{CompactTransform, QuatBits, TransformBits, Vec3Bits};

fn written<T: PacketSerialize>(value: &T) -> Vec<u8> {
    let mut packet = Packet::new(PacketType::VoxelUpdate);
    value.serialize(&mut packet);
    let framed = packet.to_bytes();
    framed[1..].to_vec()
}

fn reading(bytes: &[u8]) -> Packet {
    let mut framed = vec![PacketType::VoxelUpdate.to_u8()];
    framed.extend_from_slice(bytes);
    Packet::try_from_bytes(framed).unwrap()
}

fn vec3_bits(v: bevy::math::Vec3) -> Vec3Bits {
    Vec3Bits::new(v.x.to_bits(), v.y.to_bits(), v.z.to_bits())
}

fn quat_bits(q: bevy::math::Quat) -> QuatBits {
    QuatBits::new(q.x.to_bits(), q.y.to_bits(), q.z.to_bits(), q.w.to_bits())
}

#[test]
fn material_serialize_deserialize() {
    let mut packet = Packet::new(PacketType::VoxelUpdate);

    let x = Material::Aluminum;
    x.serialize(&mut packet);

    let y = Material::deserialize(&mut packet).unwrap();

    assert_eq!(x, y);
}

#[test]
fn vec3_serialize_deserialize() {
    let mut packet = Packet::new(PacketType::PlayerConnected);

    let x = bevy::math::Vec3::new(1.0, -5.0, 0.0);
    vec3_bits(x).serialize(&mut packet);

    let y = Vec3Bits::deserialize(&mut packet).unwrap();
    let y = bevy::math::Vec3::new(f32::from_bits(y.x), f32::from_bits(y.y), f32::from_bits(y.z));

    assert_eq!(x, y);
}

#[test]
fn quat_serialize_deserialize() {
    let mut packet = Packet::new(PacketType::PlayerConnected);

    let x = bevy::math::Quat::from_rotation_x(1.0);
    quat_bits(x).serialize(&mut packet);

    let y = QuatBits::deserialize(&mut packet).unwrap();
    let y = bevy::math::Quat::from_xyzw(
        f32::from_bits(y.x),
        f32::from_bits(y.y),
        f32::from_bits(y.z),
        f32::from_bits(y.w),
    );

    assert_eq!(x, y);
}

#[test]
fn transform_serialize_deserialize() {
    let mut packet = Packet::new(PacketType::PlayerConnected);

    let translation = bevy::math::Vec3::new(1.0, -5.0, 0.0);
    let rotation = bevy::math::Quat::from_rotation_x(1.0);
    let scale = bevy::math::Vec3::new(5.0, 1.25, 3.0);
    let x = TransformBits {
        translation: vec3_bits(translation),
        rotation: quat_bits(rotation),
        scale: vec3_bits(scale),
    };
    x.serialize(&mut packet);

    let y = TransformBits::deserialize(&mut packet).unwrap();

    assert_eq!(x, y);
    assert_eq!(f32::from_bits(y.scale.y), 1.25);
}

#[test]
fn integers_are_little_endian() {
    assert_eq!(written(&7u8), vec![7]);
    assert_eq!(written(&0x1234u16), vec![0x34, 0x12]);
    assert_eq!(written(&-2i16), vec![0xfe, 0xff]);
    assert_eq!(written(&0x01020304u32), vec![4, 3, 2, 1]);
    assert_eq!(written(&0x0102030405060708u64), vec![8, 7, 6, 5, 4, 3, 2, 1]);
    assert_eq!(written(&true), vec![1]);
    assert_eq!(written(&false), vec![0]);
}

#[test]
fn integers_read_back() {
    let mut packet = reading(&[0x34, 0x12, 0xfe, 0xff, 4, 3, 2, 1]);
    assert_eq!(u16::deserialize(&mut packet).unwrap(), 0x1234);
    assert_eq!(i16::deserialize(&mut packet).unwrap(), -2);
    assert_eq!(u32::deserialize(&mut packet).unwrap(), 0x01020304);
}

#[test]
fn bool_other_than_zero_or_one_is_invalid() {
    let mut packet = reading(&[2]);
    match bool::deserialize(&mut packet) {
        Err(PacketError::InvalidPacketError(_)) => {}
        _ => panic!("a byte of 2 is no bool"),
    }
}

#[test]
fn reading_past_the_end_is_a_bounds_error() {
    let mut packet = reading(&[1, 2, 3]);
    match u32::deserialize(&mut packet) {
        Err(PacketError::BoundsError(_)) => {}
        _ => panic!("three bytes hold no u32"),
    }
    // the failed read consumed nothing: the three bytes are still there
    assert_eq!(u8::deserialize(&mut packet).unwrap(), 1);
}

#[test]
fn unknown_material_is_invalid() {
    let mut packet = reading(&[9]);
    match Material::deserialize(&mut packet) {
        Err(PacketError::InvalidPacketError(_)) => {}
        _ => panic!("no material has byte 9"),
    }
    assert_eq!(Material::try_from_u8(1), Some(Material::Aluminum));
    assert_eq!(Material::Empty.to_u8(), 0);
}

#[test]
fn string_is_length_then_utf8() {
    let bytes = written(&"hé".to_string());
    assert_eq!(bytes, vec![3, 0, b'h', 0xc3, 0xa9]);
    let mut packet = reading(&bytes);
    assert_eq!(String::deserialize(&mut packet).unwrap(), "hé");
}

#[test]
fn string_longer_than_u16_is_cut() {
    let long = "a".repeat(70000);
    let bytes = written(&long);
    assert_eq!(bytes.len(), 2 + 0xffff);
    assert_eq!(&bytes[0..2], &[0xff, 0xff]);
    let mut packet = reading(&bytes);
    assert_eq!(String::deserialize(&mut packet).unwrap().len(), 0xffff);
}

#[test]
fn invalid_utf8_is_replaced() {
    let mut packet = reading(&[2, 0, 0xff, b'a']);
    assert_eq!(String::deserialize(&mut packet).unwrap(), "\u{fffd}a");
}

#[test]
fn vec_is_count_then_elements() {
    let v: Vec<u16> = vec![1, 0x0203];
    assert_eq!(written(&v), vec![2, 0, 0, 0, 0, 0, 0, 0, 1, 0, 3, 2]);
    let mut packet = reading(&written(&v));
    assert_eq!(Vec::<u16>::deserialize(&mut packet).unwrap(), v);
}

#[test]
fn option_is_flag_then_value() {
    assert_eq!(written(&Some(5u8)), vec![1, 5]);
    assert_eq!(written(&None::<u8>), vec![0]);
    let mut packet = reading(&[1, 5, 0]);
    assert_eq!(Option::<u8>::deserialize(&mut packet).unwrap(), Some(5));
    assert_eq!(Option::<u8>::deserialize(&mut packet).unwrap(), None);
}

#[test]
fn tuples_are_their_fields_in_order() {
    assert_eq!(written(&(1u8, 2u16)), vec![1, 2, 0]);
    assert_eq!(written(&(1u8, true, 3u8)), vec![1, 1, 3]);
    assert_eq!(written(&(4u8,)), vec![4]);
}

#[test]
fn short_float_vector_has_no_reading() {
    // a vector of floats with two elements where three are needed
    let mut packet = reading(&[2, 0, 0, 0, 0, 0, 0, 0, 0, 0, 0, 0, 0, 0, 0, 0]);
    match Vec3Bits::read_from(&mut packet) {
        ReadOutcome::Undefined => {}
        _ => panic!("two floats make no vector of three"),
    }
}

#[test]
fn ids_round_trip() {
    let mut packet = Packet::new(PacketType::InitialState);
    NetworkId::from(70000).serialize(&mut packet);
    PartId::from(3).serialize(&mut packet);
    PlayerId::from(9).serialize(&mut packet);
    PlayerName::from("ann".to_string()).serialize(&mut packet);
    GridPos::new(-1, 2, 300).serialize(&mut packet);
    let mut packet = Packet::try_from_bytes(packet.to_bytes()).unwrap();
    assert_eq!(NetworkId::deserialize(&mut packet).unwrap().id(), 70000);
    assert_eq!(PartId::deserialize(&mut packet).unwrap().id(), 3);
    assert_eq!(PlayerId::deserialize(&mut packet).unwrap(), PlayerId::from(9));
    assert_eq!(PlayerName::deserialize(&mut packet).unwrap().to_string(), "ann");
    assert_eq!(GridPos::deserialize(&mut packet).unwrap(), GridPos::new(-1, 2, 300));
}

#[test]
fn part_network_repr_round_trip() {
    let part = Part::new(1, 2, 1, vec![Material::Aluminum, Material::Empty], Some(PartId::from(4)));
    let bytes = written(&PartNetworkRepr::Child(part));
    assert_eq!(bytes[0], 1);
    let mut packet = reading(&bytes);
    match PartNetworkRepr::deserialize(&mut packet).unwrap() {
        PartNetworkRepr::Child(p) => {
            assert_eq!((p.width(), p.height(), p.depth()), (1, 2, 1));
            assert_eq!(p.voxels(), &[Material::Aluminum, Material::Empty]);
            assert_eq!(p.parent_part_id(), Some(PartId::from(4)));
        }
        PartNetworkRepr::Predefined(_) => panic!("a child part was written"),
    }
    assert_eq!(written(&PartNetworkRepr::Predefined(PartId::from(2))), vec![0, 2, 0, 0, 0]);
}

#[test]
fn compact_transform_round_trip() {
    let t = CompactTransform::new(
        Vec3Bits::new(1, 2, 3),
        QuatBits::new(4, 5, 6, 7),
    );
    let mut packet = reading(&written(&t));
    assert_eq!(CompactTransform::deserialize(&mut packet).unwrap(), t);
}
