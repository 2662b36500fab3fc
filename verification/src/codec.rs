//! Reading and writing values in packets.
//!
//! Every value is written as a fixed sequence of bytes appended to the packet
//! (`spec_serialize`), and read back from the bytes at the cursor
//! (`spec_deserialize`), which also says how many bytes a read consumes and
//! how it fails.

use vstd::bytes::{
    spec_u16_from_le_bytes, spec_u16_to_le_bytes, spec_u32_from_le_bytes, spec_u32_to_le_bytes,
    spec_u64_from_le_bytes, spec_u64_to_le_bytes, u16_from_le_bytes, u16_to_le_bytes,
    u32_from_le_bytes, u32_to_le_bytes, u64_from_le_bytes, u64_to_le_bytes,
    lemma_auto_spec_u16_to_from_le_bytes, lemma_auto_spec_u32_to_from_le_bytes,
    lemma_auto_spec_u64_to_from_le_bytes,
};
use vstd::prelude::*;
use vstd::utf8::{decode_utf8, encode_utf8, encode_utf8_decode_utf8, valid_utf8};
use vstd::string::StringSliceAdditionalSpecFns;

use crate::packet::{max_packet_len, Packet, PacketError, PacketView};

verus! {

broadcast use vstd::seq_lib::group_seq_properties;

/// What reading a value from some bytes gives: the value and the number of bytes it
/// took, or a failure and the number of bytes consumed before it.
pub enum Decoded<V> {
    /// The value read and the number of bytes it took.
    Value(V, nat),
    /// A read needed more bytes than were left; the count is what was consumed before it.
    OutOfBounds(nat),
    /// Bytes were found that stand for no value; the count includes them.
    Invalid(nat),
    /// A length prefix gives fewer elements than a fixed-size value needs: such bytes
    /// have no defined reading, and `deserialize` does not accept them.
    Undefined,
}

impl<V> Decoded<V> {
    /// The same outcome with `k` more bytes consumed in front of it.
    pub open spec fn after(self, k: nat) -> Decoded<V> {
        match self {
            Decoded::Value(v, n) => Decoded::Value(v, k + n),
            Decoded::OutOfBounds(n) => Decoded::OutOfBounds(k + n),
            Decoded::Invalid(n) => Decoded::Invalid(k + n),
            Decoded::Undefined => Decoded::Undefined,
        }
    }

    /// The value mapped through `f`, failures kept.
    pub open spec fn map<W>(self, f: spec_fn(V) -> W) -> Decoded<W> {
        match self {
            Decoded::Value(v, n) => Decoded::Value(f(v), n),
            Decoded::OutOfBounds(n) => Decoded::OutOfBounds(n),
            Decoded::Invalid(n) => Decoded::Invalid(n),
            Decoded::Undefined => Decoded::Undefined,
        }
    }

    /// The number of bytes consumed, for the outcomes that have one.
    pub open spec fn consumed(self) -> nat {
        match self {
            Decoded::Value(_, n) => n,
            Decoded::OutOfBounds(n) => n,
            Decoded::Invalid(n) => n,
            Decoded::Undefined => 0,
        }
    }
}

/// Reading `first` from `bytes` and then, from the bytes after it, whatever `next` reads.
pub open spec fn then<A, B>(
    first: Decoded<A>,
    bytes: Seq<u8>,
    next: spec_fn(Seq<u8>) -> Decoded<B>,
) -> Decoded<(A, B)> {
    match first {
        Decoded::Value(a, n) => next(bytes.skip(n as int)).map(|b: B| (a, b)).after(n),
        Decoded::OutOfBounds(n) => Decoded::OutOfBounds(n),
        Decoded::Invalid(n) => Decoded::Invalid(n),
        Decoded::Undefined => Decoded::Undefined,
    }
}

/// The outcome of a read in executable form.
pub enum ReadOutcome<T> {
    Value(T),
    Error(PacketError),
    Undefined,
}

/// `result` and the packet after it (`new`) agree with the outcome `d` of reading from `old`.
pub open spec fn read_matches<T: DeepView>(
    old: PacketView,
    new: PacketView,
    d: Decoded<T::V>,
    res: ReadOutcome<T>,
) -> bool {
    match d {
        Decoded::Value(v, n) => {
            &&& new == old.advanced(n as int)
            &&& res matches ReadOutcome::Value(x) && x.deep_view() == v
        },
        Decoded::OutOfBounds(n) => {
            &&& new == old.advanced(n as int)
            &&& res matches ReadOutcome::Error(PacketError::BoundsError(p)) && p@ == new
        },
        Decoded::Invalid(n) => {
            &&& new == old.advanced(n as int)
            &&& res matches ReadOutcome::Error(PacketError::InvalidPacketError(p)) && p@ == new
        },
        Decoded::Undefined => res is Undefined,
    }
}

/// `res` and the packet after it (`new`) agree with the outcome `d` of reading from `old`.
pub open spec fn result_matches<T: DeepView>(
    old: PacketView,
    new: PacketView,
    d: Decoded<T::V>,
    res: Result<T, PacketError>,
) -> bool {
    match d {
        Decoded::Value(v, n) => {
            &&& new == old.advanced(n as int)
            &&& res matches Ok(x) && x.deep_view() == v
        },
        Decoded::OutOfBounds(n) => {
            &&& new == old.advanced(n as int)
            &&& res matches Err(PacketError::BoundsError(p)) && p@ == new
        },
        Decoded::Invalid(n) => {
            &&& new == old.advanced(n as int)
            &&& res matches Err(PacketError::InvalidPacketError(p)) && p@ == new
        },
        Decoded::Undefined => false,
    }
}

/// An outcome never consumes more bytes than it was given.
pub open spec fn within(d: Decoded<impl Sized>, bytes: Seq<u8>) -> bool {
    d.consumed() <= bytes.len()
}

/// Values that can be written to a packet.
pub trait PacketSerialize: DeepView {
    /// The bytes written for a value.
    spec fn spec_serialize(v: Self::V) -> Seq<u8>;

    /// Appends the bytes of this value to the packet.
    fn serialize(&self, packet: &mut Packet)
        requires
            old(packet)@.well_formed(),
            old(packet)@.data.len() + Self::spec_serialize(self.deep_view()).len() <= max_packet_len(),
        ensures
            final(packet)@ == old(packet)@.appended(Self::spec_serialize(self.deep_view())),
            final(packet)@.well_formed(),
    ;
}

/// Values that can be read from a packet.
pub trait PacketDeserialize: Sized + DeepView {
    /// What reading a value from `bytes` gives.
    spec fn spec_deserialize(bytes: Seq<u8>) -> Decoded<Self::V>;

    /// A read never consumes more bytes than there are.
    proof fn lemma_deserialize_within(bytes: Seq<u8>)
        ensures
            Self::spec_deserialize(bytes).consumed() <= bytes.len(),
    ;

    /// Reads a value at the cursor, with every outcome the bytes allow.
    fn read_from(packet: &mut Packet) -> (res: ReadOutcome<Self>)
        requires
            old(packet)@.well_formed(),
        ensures
            read_matches(old(packet)@, final(packet)@, Self::spec_deserialize(old(packet)@.unread()), res),
            final(packet)@.well_formed(),
    ;

    /// Reads a value at the cursor.
    fn deserialize(packet: &mut Packet) -> (res: Result<Self, PacketError>)
        requires
            old(packet)@.well_formed(),
            !(Self::spec_deserialize(old(packet)@.unread()) is Undefined),
        ensures
            result_matches(old(packet)@, final(packet)@, Self::spec_deserialize(old(packet)@.unread()), res),
            final(packet)@.well_formed(),
    {
        match Self::read_from(packet) {
            ReadOutcome::Value(v) => Ok(v),
            ReadOutcome::Error(e) => Err(e),
            ReadOutcome::Undefined => {
                proof { assert(false); }
                Err(PacketError::EmptyPacket)
            },
        }
    }
}

/// Values that read back as written.
pub trait PacketRoundtrip: PacketSerialize + PacketDeserialize {
    /// The values whose bytes read back as the value itself.
    spec fn spec_fits(v: <Self as DeepView>::V) -> bool;

    /// Reading the bytes written for a value gives the value back, and takes
    /// exactly those bytes, whatever follows them.
    proof fn lemma_roundtrip(v: <Self as DeepView>::V, rest: Seq<u8>)
        requires
            Self::spec_fits(v),
        ensures
            Self::spec_deserialize(Self::spec_serialize(v) + rest) == Decoded::Value(
                v,
                Self::spec_serialize(v).len(),
            ),
    ;
}

/// Moving the cursor on by `n` leaves the unread bytes after the first `n`.
pub proof fn lemma_unread_advanced(p: PacketView, n: int)
    requires
        p.well_formed(),
        0 <= n <= p.unread().len(),
    ensures
        p.advanced(n).unread() == p.unread().skip(n),
        p.advanced(n).well_formed(),
{
    assert(p.advanced(n).unread() =~= p.unread().skip(n));
}

/// Writing at the end leaves the unread bytes followed by what was written.
pub proof fn lemma_unread_appended(p: PacketView, bytes: Seq<u8>)
    requires
        p.well_formed(),
    ensures
        p.appended(bytes).unread() == p.unread() + bytes,
{
    assert(p.appended(bytes).unread() =~= p.unread() + bytes);
}

/// A value written into a packet with nothing left to read reads back as itself,
/// taking exactly its bytes and leaving nothing unread.
pub proof fn lemma_write_then_read<T: PacketRoundtrip>(p: PacketView, v: <T as DeepView>::V)
    requires
        p.well_formed(),
        p.unread() == Seq::<u8>::empty(),
        T::spec_fits(v),
    ensures
        ({
            let q = p.appended(T::spec_serialize(v));
            let n = T::spec_serialize(v).len();
            &&& T::spec_deserialize(q.unread()) == Decoded::Value(v, n)
            &&& q.advanced(n as int).unread() == Seq::<u8>::empty()
        }),
{
    let bytes = T::spec_serialize(v);
    let q = p.appended(bytes);
    lemma_unread_appended(p, bytes);
    assert(q.unread() =~= bytes);
    assert(bytes + Seq::<u8>::empty() =~= bytes);
    T::lemma_roundtrip(v, Seq::empty());
    assert(q.advanced(bytes.len() as int).unread() =~= Seq::<u8>::empty());
}

// ---------------------------------------------------------------- u8

impl PacketSerialize for u8 {
    open spec fn spec_serialize(v: u8) -> Seq<u8> {
        seq![v]
    }

    fn serialize(&self, packet: &mut Packet) {
        let bytes = [*self];
        assert(bytes@ =~= seq![*self]);
        packet.write_bytes(&bytes);
    }
}

impl PacketDeserialize for u8 {
    open spec fn spec_deserialize(bytes: Seq<u8>) -> Decoded<u8> {
        if bytes.len() >= 1 {
            Decoded::Value(bytes[0], 1)
        } else {
            Decoded::OutOfBounds(0)
        }
    }

    proof fn lemma_deserialize_within(bytes: Seq<u8>) {
    }

    fn read_from(packet: &mut Packet) -> (res: ReadOutcome<u8>) {
        match packet.next_bytes(1) {
            Ok(bytes) => ReadOutcome::Value(bytes[0]),
            Err(e) => ReadOutcome::Error(e),
        }
    }
}

impl PacketRoundtrip for u8 {
    open spec fn spec_fits(v: u8) -> bool {
        true
    }

    proof fn lemma_roundtrip(v: u8, rest: Seq<u8>) {
    }
}

// ---------------------------------------------------------------- bool

impl PacketSerialize for bool {
    open spec fn spec_serialize(v: bool) -> Seq<u8> {
        if v { seq![1u8] } else { seq![0u8] }
    }

    fn serialize(&self, packet: &mut Packet) {
        let byte: u8 = if *self { 1 } else { 0 };
        byte.serialize(packet);
    }
}

impl PacketDeserialize for bool {
    open spec fn spec_deserialize(bytes: Seq<u8>) -> Decoded<bool> {
        if bytes.len() >= 1 {
            if bytes[0] == 0 {
                Decoded::Value(false, 1)
            } else if bytes[0] == 1 {
                Decoded::Value(true, 1)
            } else {
                Decoded::Invalid(1)
            }
        } else {
            Decoded::OutOfBounds(0)
        }
    }

    proof fn lemma_deserialize_within(bytes: Seq<u8>) {
    }

    fn read_from(packet: &mut Packet) -> (res: ReadOutcome<bool>) {
        match u8::read_from(packet) {
            ReadOutcome::Value(byte) => {
                if byte == 0 {
                    ReadOutcome::Value(false)
                } else if byte == 1 {
                    ReadOutcome::Value(true)
                } else {
                    ReadOutcome::Error(PacketError::InvalidPacketError(packet.duplicate()))
                }
            },
            ReadOutcome::Error(e) => ReadOutcome::Error(e),
            ReadOutcome::Undefined => ReadOutcome::Undefined,
        }
    }
}

impl PacketRoundtrip for bool {
    open spec fn spec_fits(v: bool) -> bool {
        true
    }

    proof fn lemma_roundtrip(v: bool, rest: Seq<u8>) {
    }
}

// ---------------------------------------------------------------- u16

impl PacketSerialize for u16 {
    open spec fn spec_serialize(v: u16) -> Seq<u8> {
        spec_u16_to_le_bytes(v)
    }

    fn serialize(&self, packet: &mut Packet) {
        let bytes = u16_to_le_bytes(*self);
        packet.write_bytes(bytes.as_slice());
    }
}

impl PacketDeserialize for u16 {
    open spec fn spec_deserialize(bytes: Seq<u8>) -> Decoded<u16> {
        if bytes.len() >= 2 {
            Decoded::Value(spec_u16_from_le_bytes(bytes.take(2)), 2)
        } else {
            Decoded::OutOfBounds(0)
        }
    }

    proof fn lemma_deserialize_within(bytes: Seq<u8>) {
    }

    fn read_from(packet: &mut Packet) -> (res: ReadOutcome<u16>) {
        proof {
            assert(packet@.unread() =~= packet@.data.subrange(packet@.index, packet@.data.len() as int));
        }
        match packet.next_bytes(2) {
            Ok(bytes) => {
                proof {
                    assert(bytes@ =~= old(packet)@.unread().take(2));
                }
                ReadOutcome::Value(u16_from_le_bytes(bytes))
            },
            Err(e) => ReadOutcome::Error(e),
        }
    }
}

impl PacketRoundtrip for u16 {
    open spec fn spec_fits(v: u16) -> bool {
        true
    }

    proof fn lemma_roundtrip(v: u16, rest: Seq<u8>) {
        lemma_auto_spec_u16_to_from_le_bytes();
        assert((spec_u16_to_le_bytes(v) + rest).take(2) =~= spec_u16_to_le_bytes(v));
    }
}

// ---------------------------------------------------------------- i16

impl PacketSerialize for i16 {
    open spec fn spec_serialize(v: i16) -> Seq<u8> {
        spec_u16_to_le_bytes(v as u16)
    }

    fn serialize(&self, packet: &mut Packet) {
        let bits = *self as u16;
        bits.serialize(packet);
    }
}

impl PacketDeserialize for i16 {
    open spec fn spec_deserialize(bytes: Seq<u8>) -> Decoded<i16> {
        if bytes.len() >= 2 {
            Decoded::Value(spec_u16_from_le_bytes(bytes.take(2)) as i16, 2)
        } else {
            Decoded::OutOfBounds(0)
        }
    }

    proof fn lemma_deserialize_within(bytes: Seq<u8>) {
    }

    fn read_from(packet: &mut Packet) -> (res: ReadOutcome<i16>) {
        match u16::read_from(packet) {
            ReadOutcome::Value(bits) => ReadOutcome::Value(bits as i16),
            ReadOutcome::Error(e) => ReadOutcome::Error(e),
            ReadOutcome::Undefined => ReadOutcome::Undefined,
        }
    }
}

impl PacketRoundtrip for i16 {
    open spec fn spec_fits(v: i16) -> bool {
        true
    }

    proof fn lemma_roundtrip(v: i16, rest: Seq<u8>) {
        lemma_auto_spec_u16_to_from_le_bytes();
        assert((spec_u16_to_le_bytes(v as u16) + rest).take(2) =~= spec_u16_to_le_bytes(v as u16));
        assert((v as u16) as i16 == v) by (bit_vector);
    }
}

// ---------------------------------------------------------------- u32

impl PacketSerialize for u32 {
    open spec fn spec_serialize(v: u32) -> Seq<u8> {
        spec_u32_to_le_bytes(v)
    }

    fn serialize(&self, packet: &mut Packet) {
        let bytes = u32_to_le_bytes(*self);
        packet.write_bytes(bytes.as_slice());
    }
}

impl PacketDeserialize for u32 {
    open spec fn spec_deserialize(bytes: Seq<u8>) -> Decoded<u32> {
        if bytes.len() >= 4 {
            Decoded::Value(spec_u32_from_le_bytes(bytes.take(4)), 4)
        } else {
            Decoded::OutOfBounds(0)
        }
    }

    proof fn lemma_deserialize_within(bytes: Seq<u8>) {
    }

    fn read_from(packet: &mut Packet) -> (res: ReadOutcome<u32>) {
        match packet.next_bytes(4) {
            Ok(bytes) => {
                proof {
                    assert(bytes@ =~= old(packet)@.unread().take(4));
                }
                ReadOutcome::Value(u32_from_le_bytes(bytes))
            },
            Err(e) => ReadOutcome::Error(e),
        }
    }
}

impl PacketRoundtrip for u32 {
    open spec fn spec_fits(v: u32) -> bool {
        true
    }

    proof fn lemma_roundtrip(v: u32, rest: Seq<u8>) {
        lemma_auto_spec_u32_to_from_le_bytes();
        assert((spec_u32_to_le_bytes(v) + rest).take(4) =~= spec_u32_to_le_bytes(v));
    }
}

// ---------------------------------------------------------------- u64

impl PacketSerialize for u64 {
    open spec fn spec_serialize(v: u64) -> Seq<u8> {
        spec_u64_to_le_bytes(v)
    }

    fn serialize(&self, packet: &mut Packet) {
        let bytes = u64_to_le_bytes(*self);
        packet.write_bytes(bytes.as_slice());
    }
}

impl PacketDeserialize for u64 {
    open spec fn spec_deserialize(bytes: Seq<u8>) -> Decoded<u64> {
        if bytes.len() >= 8 {
            Decoded::Value(spec_u64_from_le_bytes(bytes.take(8)), 8)
        } else {
            Decoded::OutOfBounds(0)
        }
    }

    proof fn lemma_deserialize_within(bytes: Seq<u8>) {
    }

    fn read_from(packet: &mut Packet) -> (res: ReadOutcome<u64>) {
        match packet.next_bytes(8) {
            Ok(bytes) => {
                proof {
                    assert(bytes@ =~= old(packet)@.unread().take(8));
                }
                ReadOutcome::Value(u64_from_le_bytes(bytes))
            },
            Err(e) => ReadOutcome::Error(e),
        }
    }
}

impl PacketRoundtrip for u64 {
    open spec fn spec_fits(v: u64) -> bool {
        true
    }

    proof fn lemma_roundtrip(v: u64, rest: Seq<u8>) {
        lemma_auto_spec_u64_to_from_le_bytes();
        assert((spec_u64_to_le_bytes(v) + rest).take(8) =~= spec_u64_to_le_bytes(v));
    }
}

// ---------------------------------------------------------------- String

/// The string that `String::from_utf8_lossy` makes of bytes that are not valid UTF-8.
pub uninterp spec fn utf8_lossy(bytes: Seq<u8>) -> Seq<char>;

/// The string read from some bytes: their decoding when they are valid UTF-8.
pub open spec fn string_from_bytes(bytes: Seq<u8>) -> Seq<char> {
    if valid_utf8(bytes) {
        decode_utf8(bytes)
    } else {
        utf8_lossy(bytes)
    }
}

/// Calls `String::from_utf8_lossy` and takes ownership of its result. Trusted:
/// for bytes that are valid UTF-8 the result is their decoding; for other bytes
/// it is `utf8_lossy` of them, which is left unsaid (the standard library puts
/// replacement characters where the bytes are invalid).
#[verifier::external_body]
fn string_from_utf8_lossy(bytes: &[u8]) -> (s: String)
    ensures
        valid_utf8(bytes@) ==> s@ == decode_utf8(bytes@),
        !valid_utf8(bytes@) ==> s@ == utf8_lossy(bytes@),
{
    String::from_utf8_lossy(bytes).into_owned()
}

/// The number of bytes of a string's UTF-8 encoding that are written: all of
/// them, up to the largest count a `u16` holds.
pub open spec fn string_written_len(chars: Seq<char>) -> nat {
    let n = encode_utf8(chars).len();
    if n > 0xffff { 0xffff } else { n }
}

impl PacketSerialize for String {
    /// A `u16` byte count, then that many bytes of the UTF-8 encoding; bytes past
    /// the 65535th are left out.
    open spec fn spec_serialize(v: Seq<char>) -> Seq<u8> {
        spec_u16_to_le_bytes(string_written_len(v) as u16) + encode_utf8(v).take(
            string_written_len(v) as int,
        )
    }

    fn serialize(&self, packet: &mut Packet) {
        let bytes = self.as_str().as_bytes();
        let n: usize = if bytes.len() > 0xffff { 0xffff } else { bytes.len() };
        let count = n as u16;
        count.serialize(packet);
        packet.write_bytes(&bytes[0..n]);
        proof {
            assert(bytes@.subrange(0, n as int) =~= bytes@.take(n as int));
            assert(final(packet)@.data =~= old(packet)@.data + Self::spec_serialize(self.deep_view()));
        }
    }
}

impl PacketDeserialize for String {
    open spec fn spec_deserialize(bytes: Seq<u8>) -> Decoded<Seq<char>> {
        if bytes.len() < 2 {
            Decoded::OutOfBounds(0)
        } else {
            let n = spec_u16_from_le_bytes(bytes.take(2));
            if bytes.len() < 2 + n {
                Decoded::OutOfBounds(2)
            } else {
                Decoded::Value(string_from_bytes(bytes.subrange(2, 2 + n)), (2 + n) as nat)
            }
        }
    }

    proof fn lemma_deserialize_within(bytes: Seq<u8>) {
    }

    fn read_from(packet: &mut Packet) -> (res: ReadOutcome<String>) {
        let ghost p0 = packet@;
        let count = match u16::read_from(packet) {
            ReadOutcome::Value(count) => count,
            ReadOutcome::Error(e) => return ReadOutcome::Error(e),
            ReadOutcome::Undefined => return ReadOutcome::Undefined,
        };
        proof { lemma_unread_advanced(p0, 2); }
        match packet.next_bytes(count as usize) {
            Ok(bytes) => {
                proof {
                    assert(bytes@ =~= p0.unread().subrange(2, 2 + count));
                }
                ReadOutcome::Value(string_from_utf8_lossy(bytes))
            },
            Err(e) => ReadOutcome::Error(e),
        }
    }
}

impl PacketRoundtrip for String {
    /// Strings whose UTF-8 encoding fits the `u16` byte count.
    open spec fn spec_fits(v: Seq<char>) -> bool {
        encode_utf8(v).len() <= 0xffff
    }

    proof fn lemma_roundtrip(v: Seq<char>, rest: Seq<u8>) {
        lemma_auto_spec_u16_to_from_le_bytes();
        let enc = encode_utf8(v);
        let n = enc.len();
        assert(enc.take(n as int) =~= enc);
        let bytes = Self::spec_serialize(v) + rest;
        assert(bytes.take(2) =~= spec_u16_to_le_bytes(n as u16));
        assert(bytes.subrange(2, 2 + n as int) =~= enc);
        encode_utf8_decode_utf8(v);
        vstd::utf8::encode_utf8_valid_utf8(v);
    }
}

// ---------------------------------------------------------------- Vec<T>

/// The bytes written for the elements of a sequence, one after another.
pub open spec fn serialize_elems<T: PacketSerialize>(vs: Seq<T::V>) -> Seq<u8>
    decreases vs.len(),
{
    if vs.len() == 0 {
        Seq::empty()
    } else {
        serialize_elems::<T>(vs.drop_last()) + T::spec_serialize(vs.last())
    }
}

/// Reading `count` values one after another from `bytes`.
pub open spec fn deserialize_elems<T: PacketDeserialize>(bytes: Seq<u8>, count: nat) -> Decoded<
    Seq<T::V>,
>
    decreases count,
{
    if count == 0 {
        Decoded::Value(Seq::empty(), 0)
    } else {
        match deserialize_elems::<T>(bytes, (count - 1) as nat) {
            Decoded::Value(vs, n) => T::spec_deserialize(bytes.skip(n as int)).map(
                |v: T::V| vs.push(v),
            ).after(n),
            other => other,
        }
    }
}

pub proof fn lemma_serialize_elems_prefix<T: PacketSerialize>(vs: Seq<T::V>, i: int)
    requires
        0 <= i < vs.len(),
    ensures
        serialize_elems::<T>(vs.take(i + 1)) == serialize_elems::<T>(vs.take(i)) + T::spec_serialize(
            vs[i],
        ),
        serialize_elems::<T>(vs.take(i + 1)).len() <= serialize_elems::<T>(vs).len(),
    decreases vs.len(),
{
    assert(vs.take(i + 1).drop_last() =~= vs.take(i));
    if i + 1 < vs.len() {
        lemma_serialize_elems_prefix::<T>(vs.drop_last(), i);
        assert(vs.drop_last().take(i + 1) =~= vs.take(i + 1));
        assert(vs.drop_last().take(i) =~= vs.take(i));
    } else {
        assert(vs.take(i + 1) =~= vs);
    }
}

pub proof fn lemma_deserialize_elems_within<T: PacketDeserialize>(bytes: Seq<u8>, count: nat)
    ensures
        deserialize_elems::<T>(bytes, count).consumed() <= bytes.len(),
    decreases count,
{
    if count > 0 {
        lemma_deserialize_elems_within::<T>(bytes, (count - 1) as nat);
        if let Decoded::Value(vs, n) = deserialize_elems::<T>(bytes, (count - 1) as nat) {
            T::lemma_deserialize_within(bytes.skip(n as int));
        }
    }
}

/// Once reading the elements fails, reading more of them fails the same way.
pub proof fn lemma_deserialize_elems_failure<T: PacketDeserialize>(bytes: Seq<u8>, k: nat, m: nat)
    requires
        k <= m,
        !(deserialize_elems::<T>(bytes, k) is Value),
    ensures
        deserialize_elems::<T>(bytes, m) == deserialize_elems::<T>(bytes, k),
    decreases m - k,
{
    if k < m {
        lemma_deserialize_elems_failure::<T>(bytes, k, (m - 1) as nat);
    }
}

pub proof fn lemma_elems_roundtrip<T: PacketRoundtrip>(vs: Seq<<T as DeepView>::V>, rest: Seq<u8>)
    requires
        forall|i: int| 0 <= i < vs.len() ==> T::spec_fits(#[trigger] vs[i]),
    ensures
        deserialize_elems::<T>(serialize_elems::<T>(vs) + rest, vs.len()) == Decoded::Value(
            vs,
            serialize_elems::<T>(vs).len(),
        ),
    decreases vs.len(),
{
    if vs.len() > 0 {
        let init = vs.drop_last();
        let x = vs.last();
        let tail = T::spec_serialize(x) + rest;
        assert forall|i: int| 0 <= i < init.len() implies T::spec_fits(#[trigger] init[i]) by {
            assert(init[i] == vs[i]);
        }
        lemma_elems_roundtrip::<T>(init, tail);
        let bytes = serialize_elems::<T>(vs) + rest;
        assert(bytes =~= serialize_elems::<T>(init) + tail);
        assert(bytes.skip(serialize_elems::<T>(init).len() as int) =~= tail);
        T::lemma_roundtrip(x, rest);
        assert(init.push(x) =~= vs);
    }
}

impl<T: PacketSerialize> PacketSerialize for Vec<T> {
    /// A `u64` element count, then the elements.
    open spec fn spec_serialize(v: Seq<T::V>) -> Seq<u8> {
        spec_u64_to_le_bytes(v.len() as u64) + serialize_elems::<T>(v)
    }

    fn serialize(&self, packet: &mut Packet) {
        let ghost vs = self.deep_view();
        let ghost start = packet@;
        let len = self.len() as u64;
        len.serialize(packet);
        proof {
            lemma_auto_spec_u64_to_from_le_bytes();
            assert(vs.take(0) =~= Seq::<T::V>::empty());
        }
        let mut i: usize = 0;
        while i < self.len()
            invariant
                i <= self.len(),
                vs == self.deep_view(),
                vs.len() == self.len(),
                len == self.len(),
                packet@ == start.appended(
                    spec_u64_to_le_bytes(len) + serialize_elems::<T>(vs.take(i as int)),
                ),
                packet@.well_formed(),
                start.data.len() + 8 + serialize_elems::<T>(vs).len() <= max_packet_len(),
            decreases self.len() - i,
        {
            proof {
                lemma_auto_spec_u64_to_from_le_bytes();
                lemma_serialize_elems_prefix::<T>(vs, i as int);
                assert(vs[i as int] == self[i as int].deep_view());
                assert(packet@.data.len() == start.data.len() + 8 + serialize_elems::<T>(vs.take(i as int)).len());
            }
            self[i].serialize(packet);
            proof {
                assert(packet@.data =~= start.data + (spec_u64_to_le_bytes(len)
                    + serialize_elems::<T>(vs.take(i + 1))));
            }
            i = i + 1;
        }
        proof {
            assert(vs.take(i as int) =~= vs);
        }
    }
}

impl<T: PacketDeserialize> PacketDeserialize for Vec<T> {
    open spec fn spec_deserialize(bytes: Seq<u8>) -> Decoded<Seq<T::V>> {
        if bytes.len() < 8 {
            Decoded::OutOfBounds(0)
        } else {
            deserialize_elems::<T>(
                bytes.skip(8),
                spec_u64_from_le_bytes(bytes.take(8)) as nat,
            ).after(8)
        }
    }

    proof fn lemma_deserialize_within(bytes: Seq<u8>) {
        if bytes.len() >= 8 {
            lemma_deserialize_elems_within::<T>(
                bytes.skip(8),
                spec_u64_from_le_bytes(bytes.take(8)) as nat,
            );
        }
    }

    fn read_from(packet: &mut Packet) -> (res: ReadOutcome<Vec<T>>) {
        let ghost p0 = packet@;
        let count = match u64::read_from(packet) {
            ReadOutcome::Value(count) => count,
            ReadOutcome::Error(e) => return ReadOutcome::Error(e),
            ReadOutcome::Undefined => return ReadOutcome::Undefined,
        };
        let ghost rest = p0.unread().skip(8);
        let ghost p1 = packet@;
        proof {
            lemma_unread_advanced(p0, 8);
        }
        let mut elems: Vec<T> = Vec::new();
        let ghost mut consumed: nat = 0;
        let mut i: u64 = 0;
        proof {
            assert(elems.deep_view() =~= Seq::<T::V>::empty());
        }
        while i < count
            invariant
                p1.well_formed(),
                p1.unread() == rest,
                i <= count,
                p0 == old(packet)@,
                p0.well_formed(),
                p0.unread().len() >= 8,
                p1 == p0.advanced(8),
                rest == p0.unread().skip(8),
                Self::spec_deserialize(p0.unread()) == deserialize_elems::<T>(rest, count as nat).after(8),
                deserialize_elems::<T>(rest, i as nat) == Decoded::Value(elems.deep_view(), consumed),
                consumed <= rest.len(),
                packet@ == p1.advanced(consumed as int),
                packet@.well_formed(),
            decreases count - i,
        {
            let ghost before = packet@;
            proof {
                lemma_unread_advanced(p1, consumed as int);
                T::lemma_deserialize_within(rest.skip(consumed as int));
            }
            match T::read_from(packet) {
                ReadOutcome::Value(x) => {
                    let ghost old_view = elems.deep_view();
                    elems.push(x);
                    proof {
                        assert(elems.deep_view() =~= old_view.push(x.deep_view()));
                        consumed = consumed + T::spec_deserialize(rest.skip(consumed as int)).consumed();
                    }
                },
                ReadOutcome::Error(e) => {
                    proof {
                        lemma_deserialize_elems_failure::<T>(rest, (i + 1) as nat, count as nat);
                    }
                    return ReadOutcome::Error(e);
                },
                ReadOutcome::Undefined => {
                    proof {
                        lemma_deserialize_elems_failure::<T>(rest, (i + 1) as nat, count as nat);
                    }
                    return ReadOutcome::Undefined;
                },
            }
            i = i + 1;
        }
        ReadOutcome::Value(elems)
    }
}

impl<T: PacketRoundtrip> PacketRoundtrip for Vec<T> {
    /// Sequences whose length fits the `u64` count and whose elements all read back.
    open spec fn spec_fits(v: Seq<<T as DeepView>::V>) -> bool {
        &&& v.len() <= u64::MAX
        &&& forall|i: int| 0 <= i < v.len() ==> T::spec_fits(#[trigger] v[i])
    }

    proof fn lemma_roundtrip(v: Seq<<T as DeepView>::V>, rest: Seq<u8>) {
        lemma_auto_spec_u64_to_from_le_bytes();
        let bytes = Self::spec_serialize(v) + rest;
        assert(bytes.take(8) =~= spec_u64_to_le_bytes(v.len() as u64));
        assert(bytes.skip(8) =~= serialize_elems::<T>(v) + rest);
        lemma_elems_roundtrip::<T>(v, rest);
    }
}

// ---------------------------------------------------------------- Option<T>

impl<T: PacketSerialize> PacketSerialize for Option<T> {
    /// `false` for nothing; `true` then the value for something.
    open spec fn spec_serialize(v: Option<T::V>) -> Seq<u8> {
        match v {
            Some(x) => seq![1u8] + T::spec_serialize(x),
            None => seq![0u8],
        }
    }

    fn serialize(&self, packet: &mut Packet) {
        match self {
            Some(inner) => {
                true.serialize(packet);
                inner.serialize(packet);
                proof {
                    assert(packet@.data =~= old(packet)@.data + Self::spec_serialize(self.deep_view()));
                }
            },
            None => {
                false.serialize(packet);
            },
        }
    }
}

impl<T: PacketDeserialize> PacketDeserialize for Option<T> {
    open spec fn spec_deserialize(bytes: Seq<u8>) -> Decoded<Option<T::V>> {
        match bool::spec_deserialize(bytes) {
            Decoded::Value(false, n) => Decoded::Value(None, n),
            Decoded::Value(true, n) => T::spec_deserialize(bytes.skip(n as int)).map(
                |x: T::V| Some(x),
            ).after(n),
            Decoded::OutOfBounds(n) => Decoded::OutOfBounds(n),
            Decoded::Invalid(n) => Decoded::Invalid(n),
            Decoded::Undefined => Decoded::Undefined,
        }
    }

    proof fn lemma_deserialize_within(bytes: Seq<u8>) {
        if bytes.len() >= 1 {
            T::lemma_deserialize_within(bytes.skip(1));
        }
    }

    fn read_from(packet: &mut Packet) -> (res: ReadOutcome<Option<T>>) {
        let ghost p0 = packet@;
        let has_some = match bool::read_from(packet) {
            ReadOutcome::Value(b) => b,
            ReadOutcome::Error(e) => return ReadOutcome::Error(e),
            ReadOutcome::Undefined => return ReadOutcome::Undefined,
        };
        if has_some {
            proof {
                lemma_unread_advanced(p0, 1);
            }
            match T::read_from(packet) {
                ReadOutcome::Value(x) => ReadOutcome::Value(Some(x)),
                ReadOutcome::Error(e) => ReadOutcome::Error(e),
                ReadOutcome::Undefined => ReadOutcome::Undefined,
            }
        } else {
            ReadOutcome::Value(None)
        }
    }
}

impl<T: PacketRoundtrip> PacketRoundtrip for Option<T> {
    open spec fn spec_fits(v: Option<<T as DeepView>::V>) -> bool {
        match v {
            Some(x) => T::spec_fits(x),
            None => true,
        }
    }

    proof fn lemma_roundtrip(v: Option<<T as DeepView>::V>, rest: Seq<u8>) {
        if let Some(x) = v {
            let bytes = Self::spec_serialize(v) + rest;
            assert(bytes.skip(1) =~= T::spec_serialize(x) + rest);
            T::lemma_roundtrip(x, rest);
        }
    }
}

// ---------------------------------------------------------------- tuples

impl<A: PacketSerialize> PacketSerialize for (A,) {
    open spec fn spec_serialize(v: (A::V,)) -> Seq<u8> {
        A::spec_serialize(v.0)
    }

    fn serialize(&self, packet: &mut Packet) {
        self.0.serialize(packet);
    }
}

impl<A: PacketDeserialize> PacketDeserialize for (A,) {
    open spec fn spec_deserialize(bytes: Seq<u8>) -> Decoded<(A::V,)> {
        A::spec_deserialize(bytes).map(|a: A::V| (a,))
    }

    proof fn lemma_deserialize_within(bytes: Seq<u8>) {
        A::lemma_deserialize_within(bytes);
    }

    fn read_from(packet: &mut Packet) -> (res: ReadOutcome<(A,)>) {
        match A::read_from(packet) {
            ReadOutcome::Value(a) => ReadOutcome::Value((a,)),
            ReadOutcome::Error(e) => ReadOutcome::Error(e),
            ReadOutcome::Undefined => ReadOutcome::Undefined,
        }
    }
}

impl<A: PacketRoundtrip> PacketRoundtrip for (A,) {
    open spec fn spec_fits(v: (<A as DeepView>::V,)) -> bool {
        A::spec_fits(v.0)
    }

    proof fn lemma_roundtrip(v: (<A as DeepView>::V,), rest: Seq<u8>) {
        A::lemma_roundtrip(v.0, rest);
    }
}

impl<A: PacketSerialize, B: PacketSerialize> PacketSerialize for (A, B) {
    open spec fn spec_serialize(v: (A::V, B::V)) -> Seq<u8> {
        A::spec_serialize(v.0) + B::spec_serialize(v.1)
    }

    fn serialize(&self, packet: &mut Packet) {
        self.0.serialize(packet);
        self.1.serialize(packet);
        proof {
            assert(packet@.data =~= old(packet)@.data + Self::spec_serialize(self.deep_view()));
        }
    }
}

impl<A: PacketDeserialize, B: PacketDeserialize> PacketDeserialize for (A, B) {
    open spec fn spec_deserialize(bytes: Seq<u8>) -> Decoded<(A::V, B::V)> {
        then(A::spec_deserialize(bytes), bytes, |r: Seq<u8>| B::spec_deserialize(r))
    }

    proof fn lemma_deserialize_within(bytes: Seq<u8>) {
        A::lemma_deserialize_within(bytes);
        if let Decoded::Value(a, n) = A::spec_deserialize(bytes) {
            B::lemma_deserialize_within(bytes.skip(n as int));
        }
    }

    fn read_from(packet: &mut Packet) -> (res: ReadOutcome<(A, B)>) {
        let ghost p0 = packet@;
        let a = match A::read_from(packet) {
            ReadOutcome::Value(a) => a,
            ReadOutcome::Error(e) => return ReadOutcome::Error(e),
            ReadOutcome::Undefined => return ReadOutcome::Undefined,
        };
        proof {
            A::lemma_deserialize_within(p0.unread());
            lemma_unread_advanced(p0, A::spec_deserialize(p0.unread()).consumed() as int);
        }
        match B::read_from(packet) {
            ReadOutcome::Value(b) => ReadOutcome::Value((a, b)),
            ReadOutcome::Error(e) => ReadOutcome::Error(e),
            ReadOutcome::Undefined => ReadOutcome::Undefined,
        }
    }
}

impl<A: PacketRoundtrip, B: PacketRoundtrip> PacketRoundtrip for (A, B) {
    open spec fn spec_fits(v: (<A as DeepView>::V, <B as DeepView>::V)) -> bool {
        A::spec_fits(v.0) && B::spec_fits(v.1)
    }

    proof fn lemma_roundtrip(v: (<A as DeepView>::V, <B as DeepView>::V), rest: Seq<u8>) {
        let sa = A::spec_serialize(v.0);
        let sb = B::spec_serialize(v.1);
        assert(Self::spec_serialize(v) + rest =~= sa + (sb + rest));
        A::lemma_roundtrip(v.0, sb + rest);
        assert((sa + (sb + rest)).skip(sa.len() as int) =~= sb + rest);
        B::lemma_roundtrip(v.1, rest);
    }
}

impl<A: PacketSerialize, B: PacketSerialize, C: PacketSerialize> PacketSerialize for (A, B, C) {
    open spec fn spec_serialize(v: (A::V, B::V, C::V)) -> Seq<u8> {
        A::spec_serialize(v.0) + B::spec_serialize(v.1) + C::spec_serialize(v.2)
    }

    fn serialize(&self, packet: &mut Packet) {
        self.0.serialize(packet);
        self.1.serialize(packet);
        self.2.serialize(packet);
        proof {
            assert(packet@.data =~= old(packet)@.data + Self::spec_serialize(self.deep_view()));
        }
    }
}

impl<
    A: PacketDeserialize,
    B: PacketDeserialize,
    C: PacketDeserialize,
> PacketDeserialize for (A, B, C) {
    open spec fn spec_deserialize(bytes: Seq<u8>) -> Decoded<(A::V, B::V, C::V)> {
        then(
            A::spec_deserialize(bytes),
            bytes,
            |r: Seq<u8>| then(B::spec_deserialize(r), r, |q: Seq<u8>| C::spec_deserialize(q)),
        ).map(|t: (A::V, (B::V, C::V))| (t.0, t.1.0, t.1.1))
    }

    proof fn lemma_deserialize_within(bytes: Seq<u8>) {
        A::lemma_deserialize_within(bytes);
        if let Decoded::Value(a, n) = A::spec_deserialize(bytes) {
            let r = bytes.skip(n as int);
            B::lemma_deserialize_within(r);
            if let Decoded::Value(b, m) = B::spec_deserialize(r) {
                C::lemma_deserialize_within(r.skip(m as int));
            }
        }
    }

    fn read_from(packet: &mut Packet) -> (res: ReadOutcome<(A, B, C)>) {
        let ghost p0 = packet@;
        let a = match A::read_from(packet) {
            ReadOutcome::Value(a) => a,
            ReadOutcome::Error(e) => return ReadOutcome::Error(e),
            ReadOutcome::Undefined => return ReadOutcome::Undefined,
        };
        let ghost p1 = packet@;
        proof {
            A::lemma_deserialize_within(p0.unread());
            lemma_unread_advanced(p0, A::spec_deserialize(p0.unread()).consumed() as int);
        }
        let b = match B::read_from(packet) {
            ReadOutcome::Value(b) => b,
            ReadOutcome::Error(e) => return ReadOutcome::Error(e),
            ReadOutcome::Undefined => return ReadOutcome::Undefined,
        };
        proof {
            B::lemma_deserialize_within(p1.unread());
            lemma_unread_advanced(p1, B::spec_deserialize(p1.unread()).consumed() as int);
            let n = A::spec_deserialize(p0.unread()).consumed() as int;
            let m = B::spec_deserialize(p1.unread()).consumed() as int;
            assert(p0.unread().skip(n).skip(m) =~= p1.advanced(m).unread());
        }
        match C::read_from(packet) {
            ReadOutcome::Value(c) => ReadOutcome::Value((a, b, c)),
            ReadOutcome::Error(e) => ReadOutcome::Error(e),
            ReadOutcome::Undefined => ReadOutcome::Undefined,
        }
    }
}

impl<
    A: PacketRoundtrip,
    B: PacketRoundtrip,
    C: PacketRoundtrip,
> PacketRoundtrip for (A, B, C) {
    open spec fn spec_fits(v: (<A as DeepView>::V, <B as DeepView>::V, <C as DeepView>::V)) -> bool {
        A::spec_fits(v.0) && B::spec_fits(v.1) && C::spec_fits(v.2)
    }

    proof fn lemma_roundtrip(
        v: (<A as DeepView>::V, <B as DeepView>::V, <C as DeepView>::V),
        rest: Seq<u8>,
    ) {
        let sa = A::spec_serialize(v.0);
        let sb = B::spec_serialize(v.1);
        let sc = C::spec_serialize(v.2);
        assert(Self::spec_serialize(v) + rest =~= sa + (sb + (sc + rest)));
        A::lemma_roundtrip(v.0, sb + (sc + rest));
        assert((sa + (sb + (sc + rest))).skip(sa.len() as int) =~= sb + (sc + rest));
        B::lemma_roundtrip(v.1, sc + rest);
        assert((sb + (sc + rest)).skip(sb.len() as int) =~= sc + rest);
        C::lemma_roundtrip(v.2, rest);
    }
}

/// How the plain values are written: a byte as itself; `false` and `true` as the
/// bytes 0 and 1; a `u16`, `u32` or `u64` as its bytes, low byte first, and an `i16`
/// as the `u16` of the same bits; a string as the length of its UTF-8 encoding in
/// two bytes, then the encoding, cut at 65535 bytes when it is longer.
pub proof fn lemma_plain_value_bytes(b: u8, h: u16, i: i16, w: u32, d: u64, s: Seq<char>)
    ensures
        u8::spec_serialize(b) == seq![b],
        bool::spec_serialize(false) == seq![0u8],
        bool::spec_serialize(true) == seq![1u8],
        u16::spec_serialize(h) == spec_u16_to_le_bytes(h),
        i16::spec_serialize(i) == spec_u16_to_le_bytes(i as u16),
        u32::spec_serialize(w) == spec_u32_to_le_bytes(w),
        u64::spec_serialize(d) == spec_u64_to_le_bytes(d),
        encode_utf8(s).len() <= 0xffff ==> String::spec_serialize(s) == spec_u16_to_le_bytes(
            encode_utf8(s).len() as u16,
        ) + encode_utf8(s),
        encode_utf8(s).len() > 0xffff ==> String::spec_serialize(s) == spec_u16_to_le_bytes(0xffff)
            + encode_utf8(s).take(0xffff),
{
    assert(encode_utf8(s).take(encode_utf8(s).len() as int) =~= encode_utf8(s));
}

/// How the containers are written: nothing as the byte 0, something as the byte 1
/// then the value; a vector as its length in eight bytes, low byte first, then its
/// elements one after another in order.
pub proof fn lemma_container_bytes<T: PacketSerialize>(x: T::V, vs: Seq<T::V>)
    ensures
        Option::<T>::spec_serialize(None) == seq![0u8],
        Option::<T>::spec_serialize(Some(x)) == seq![1u8] + T::spec_serialize(x),
        Vec::<T>::spec_serialize(vs) == spec_u64_to_le_bytes(vs.len() as u64) + serialize_elems::<T>(vs),
        serialize_elems::<T>(Seq::empty()) == Seq::<u8>::empty(),
        serialize_elems::<T>(vs.push(x)) == serialize_elems::<T>(vs) + T::spec_serialize(x),
{
    assert(vs.push(x).drop_last() =~= vs);
}

} // verus!
