//! Byte buffers that carry one message each, with a read cursor.

use vstd::prelude::*;

verus! {

/// The kind of message a packet carries; its byte value is the first byte on the wire.
#[derive(Debug, Clone, Copy, PartialEq, Eq)]
pub enum PacketType {
    PlacePart,
    DeletePart,
    InitialState,
    PlayerConnected,
    PlayerDisconnected,
    VoxelUpdate,
    SpawnMissile,
    ExplodeMissile,
}

impl PacketType {
    /// The byte that stands for this packet type on the wire.
    pub open spec fn spec_to_u8(self) -> u8 {
        match self {
            PacketType::PlacePart => 0,
            PacketType::DeletePart => 1,
            PacketType::InitialState => 2,
            PacketType::PlayerConnected => 3,
            PacketType::PlayerDisconnected => 4,
            PacketType::VoxelUpdate => 5,
            PacketType::SpawnMissile => 6,
            PacketType::ExplodeMissile => 7,
        }
    }

    /// The packet type a byte stands for, if any.
    pub open spec fn spec_from_u8(byte: u8) -> Option<PacketType> {
        if byte == 0 {
            Some(PacketType::PlacePart)
        } else if byte == 1 {
            Some(PacketType::DeletePart)
        } else if byte == 2 {
            Some(PacketType::InitialState)
        } else if byte == 3 {
            Some(PacketType::PlayerConnected)
        } else if byte == 4 {
            Some(PacketType::PlayerDisconnected)
        } else if byte == 5 {
            Some(PacketType::VoxelUpdate)
        } else if byte == 6 {
            Some(PacketType::SpawnMissile)
        } else if byte == 7 {
            Some(PacketType::ExplodeMissile)
        } else {
            None
        }
    }

    pub fn to_u8(self) -> (byte: u8)
        ensures
            byte == self.spec_to_u8(),
    {
        match self {
            PacketType::PlacePart => 0,
            PacketType::DeletePart => 1,
            PacketType::InitialState => 2,
            PacketType::PlayerConnected => 3,
            PacketType::PlayerDisconnected => 4,
            PacketType::VoxelUpdate => 5,
            PacketType::SpawnMissile => 6,
            PacketType::ExplodeMissile => 7,
        }
    }

    pub fn try_from_u8(byte: u8) -> (res: Option<PacketType>)
        ensures
            res == PacketType::spec_from_u8(byte),
    {
        match byte {
            0 => Some(PacketType::PlacePart),
            1 => Some(PacketType::DeletePart),
            2 => Some(PacketType::InitialState),
            3 => Some(PacketType::PlayerConnected),
            4 => Some(PacketType::PlayerDisconnected),
            5 => Some(PacketType::VoxelUpdate),
            6 => Some(PacketType::SpawnMissile),
            7 => Some(PacketType::ExplodeMissile),
            _ => None,
        }
    }
}

/// The byte of each packet type on the wire: place-part 0, delete-part 1, initial
/// state 2, player connected 3, player disconnected 4, voxel update 5, spawn
/// missile 6, explode missile 7; every other byte names no type.
pub proof fn lemma_packet_type_bytes(byte: u8)
    ensures
        PacketType::PlacePart.spec_to_u8() == 0,
        PacketType::DeletePart.spec_to_u8() == 1,
        PacketType::InitialState.spec_to_u8() == 2,
        PacketType::PlayerConnected.spec_to_u8() == 3,
        PacketType::PlayerDisconnected.spec_to_u8() == 4,
        PacketType::VoxelUpdate.spec_to_u8() == 5,
        PacketType::SpawnMissile.spec_to_u8() == 6,
        PacketType::ExplodeMissile.spec_to_u8() == 7,
        byte < 8 ==> (PacketType::spec_from_u8(byte) matches Some(t) && t.spec_to_u8() == byte),
        byte >= 8 ==> PacketType::spec_from_u8(byte) is None,
{
}

/// Turning a type into its byte and back gives the type again, and a byte
/// that names a type is that type's byte.
pub proof fn lemma_packet_type_byte_roundtrip(packet_type: PacketType, byte: u8)
    ensures
        PacketType::spec_from_u8(packet_type.spec_to_u8()) == Some(packet_type),
        PacketType::spec_from_u8(byte) matches Some(t) ==> t.spec_to_u8() == byte,
{
}

/// The largest number of bytes a packet can hold.
pub open spec fn max_packet_len() -> int {
    isize::MAX as int
}

/// What a packet is: its bytes, the position of the next byte to read, and its type.
pub struct PacketView {
    pub data: Seq<u8>,
    pub index: int,
    pub packet_type: PacketType,
}

impl PacketView {
    /// The bytes that have not been read yet.
    pub open spec fn unread(self) -> Seq<u8> {
        self.data.subrange(self.index, self.data.len() as int)
    }

    /// The same packet with the cursor moved `n` bytes on.
    pub open spec fn advanced(self, n: int) -> PacketView {
        PacketView { data: self.data, index: self.index + n, packet_type: self.packet_type }
    }

    /// The same packet with `bytes` written at its end.
    pub open spec fn appended(self, bytes: Seq<u8>) -> PacketView {
        PacketView { data: self.data + bytes, index: self.index, packet_type: self.packet_type }
    }

    pub open spec fn well_formed(self) -> bool {
        0 <= self.index <= self.data.len() <= max_packet_len()
    }
}

/// A message under construction or being read: its payload bytes, a read cursor and a type.
#[derive(Debug)]
pub struct Packet {
    data: Vec<u8>,
    index: usize,
    packet_type: PacketType,
}

impl View for Packet {
    type V = PacketView;

    closed spec fn view(&self) -> PacketView {
        PacketView { data: self.data@, index: self.index as int, packet_type: self.packet_type }
    }
}

/// Why reading a packet failed. The packets carried are the state of the packet at the failure.
#[derive(Debug)]
pub enum PacketError {
    /// A read went past the end of the packet.
    BoundsError(Packet),
    /// The bytes at the cursor do not stand for a value of the type read.
    InvalidPacketError(Packet),
    /// The first byte of a received message names no packet type.
    InvalidTypeError(u8),
    /// A received message had no bytes at all.
    EmptyPacket,
}

/// A read of some bytes or a write of some bytes, as it changes a packet.
pub enum PacketChange {
    /// The cursor moves on by this many bytes.
    Read(int),
    /// These bytes are written at the end.
    Write(Seq<u8>),
}

/// The packet after `changes`, in order.
pub open spec fn apply_changes(p: PacketView, changes: Seq<PacketChange>) -> PacketView
    decreases changes.len(),
{
    if changes.len() == 0 {
        p
    } else {
        let q = apply_changes(p, changes.drop_last());
        match changes.last() {
            PacketChange::Read(n) => q.advanced(n),
            PacketChange::Write(bytes) => q.appended(bytes),
        }
    }
}

/// Reads and writes never change a packet's type: every read or write of a packet
/// moves its cursor on or writes at its end (or, when it fails, leaves it as it
/// was), so whatever sequence of them a packet goes through keeps its type.
pub proof fn lemma_packet_type_kept(p: PacketView, changes: Seq<PacketChange>)
    ensures
        apply_changes(p, changes).packet_type == p.packet_type,
    decreases changes.len(),
{
    if changes.len() > 0 {
        lemma_packet_type_kept(p, changes.drop_last());
    }
}

/// The bytes sent for a packet: its type's byte, then its bytes.
pub open spec fn spec_frame(p: PacketView) -> Seq<u8> {
    seq![p.packet_type.spec_to_u8()] + p.data
}

/// The packet received as `bytes`: all of them kept, the cursor past the type's
/// byte; none when there are no bytes or the first names no type.
pub open spec fn spec_unframe(bytes: Seq<u8>) -> Option<PacketView> {
    if bytes.len() == 0 {
        None
    } else {
        match PacketType::spec_from_u8(bytes[0]) {
            Some(t) => Some(PacketView { data: bytes, index: 1, packet_type: t }),
            None => None,
        }
    }
}

/// A packet sent and received arrives with its type, and with its bytes, and only
/// those, left to read.
pub proof fn lemma_frame_roundtrip(p: PacketView)
    ensures
        spec_unframe(spec_frame(p)) matches Some(q) && (q.packet_type == p.packet_type
            && q.unread() == p.data && q.data.len() == p.data.len() + 1),
{
    let q = PacketView { data: spec_frame(p), index: 1, packet_type: p.packet_type };
    assert(q.unread() =~= p.data);
}

impl Packet {
    /// An empty packet of the given type, with the cursor at its start.
    pub fn new(packet_type: PacketType) -> (packet: Packet)
        ensures
            packet@ == (PacketView { data: Seq::empty(), index: 0, packet_type }),
            packet@.well_formed(),
    {
        Packet { data: Vec::new(), index: 0, packet_type }
    }

    pub fn packet_type(&self) -> (packet_type: PacketType)
        ensures
            packet_type == self@.packet_type,
    {
        self.packet_type
    }

    /// A copy of this packet, cursor included.
    pub fn duplicate(&self) -> (copy: Packet)
        ensures
            copy@ == self@,
    {
        Packet { data: self.data.clone(), index: self.index, packet_type: self.packet_type }
    }

    /// The next `num_bytes` bytes, moving the cursor past them; a bounds error
    /// carrying the unchanged packet when fewer are left.
    pub fn next_bytes(&mut self, num_bytes: usize) -> (res: Result<&[u8], PacketError>)
        requires
            old(self)@.well_formed(),
            old(self)@.index + num_bytes <= usize::MAX,
        ensures
            final(self)@.well_formed(),
            old(self)@.index + num_bytes <= old(self)@.data.len() ==> {
                &&& final(self)@ == old(self)@.advanced(num_bytes as int)
                &&& res matches Ok(bytes) && bytes@ == old(self)@.data.subrange(
                    old(self)@.index,
                    old(self)@.index + num_bytes,
                )
            },
            old(self)@.index + num_bytes > old(self)@.data.len() ==> {
                &&& final(self)@ == old(self)@
                &&& res matches Err(PacketError::BoundsError(p)) && p@ == old(self)@
            },
    {
        if self.index + num_bytes > self.data.len() {
            Err(PacketError::BoundsError(self.duplicate()))
        } else {
            let start = self.index;
            self.index = self.index + num_bytes;
            Ok(&self.data.as_slice()[start..start + num_bytes])
        }
    }

    /// The bytes to send for this packet: its type's byte, then its bytes.
    pub fn to_bytes(&self) -> (bytes: Vec<u8>)
        requires
            self@.well_formed(),
        ensures
            bytes@ == spec_frame(self@),
    {
        let mut bytes: Vec<u8> = Vec::new();
        bytes.push(self.packet_type.to_u8());
        let mut i: usize = 0;
        while i < self.data.len()
            invariant
                i <= self.data.len(),
                bytes@ == seq![self.packet_type.spec_to_u8()] + self.data@.take(i as int),
            decreases self.data.len() - i,
        {
            bytes.push(self.data[i]);
            proof {
                assert(self.data@.take(i + 1) =~= self.data@.take(i as int).push(self.data@[i as int]));
            }
            i = i + 1;
        }
        proof {
            assert(self.data@.take(i as int) =~= self.data@);
        }
        bytes
    }

    /// The packet received as `data`: it keeps all the bytes, the type's byte
    /// included, and its cursor stands past that byte.
    pub fn try_from_bytes(data: Vec<u8>) -> (res: Result<Packet, PacketError>)
        requires
            data@.len() <= max_packet_len(),
        ensures
            data@.len() == 0 ==> res matches Err(PacketError::EmptyPacket),
            data@.len() > 0 && PacketType::spec_from_u8(data@[0]) is None ==> (res matches Err(
                PacketError::InvalidTypeError(b),
            ) && b == data@[0]),
            res matches Ok(p) ==> Some(p@) == spec_unframe(data@) && p@.well_formed(),
            spec_unframe(data@) is Some ==> res is Ok,
    {
        if data.len() == 0 {
            return Err(PacketError::EmptyPacket);
        }
        let packet_type_u8 = data[0];
        match PacketType::try_from_u8(packet_type_u8) {
            Some(packet_type) => Ok(Packet { data, index: 1, packet_type }),
            None => Err(PacketError::InvalidTypeError(packet_type_u8)),
        }
    }

    /// Appends `bytes` at the end of the packet.
    pub fn write_bytes(&mut self, bytes: &[u8])
        requires
            old(self)@.well_formed(),
            old(self)@.data.len() + bytes@.len() <= max_packet_len(),
        ensures
            final(self)@ == old(self)@.appended(bytes@),
            final(self)@.well_formed(),
    {
        self.data.extend_from_slice(bytes);
        proof {
            assert(self.data@ =~= old(self).data@ + bytes@);
        }
    }
}

} // verus!
