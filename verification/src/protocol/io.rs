//! Reading and writing values in the Minecraft Beta wire format.
//!
//! Every value has a model (its `DeepView`), an encoding of that model
//! (`Writeable::spec_write`) and a decoding (`Readable::spec_read`) that
//! reports the model and the number of bytes it consumed.
use vstd::prelude::*;

use super::cursor::Cursor;
use vstd::utf8::*;

verus! {

/// The protocol version that a connection speaks.
#[derive(Clone, Copy, Debug, PartialEq, Eq)]
pub enum ProtocolVersion {
    Vb1_8_1,
}

/// An error when reading or writing a value.
#[derive(Debug)]
pub enum Error {
    /// The input ended before a value of the named type was complete.
    UnexpectedEof(&'static str),
    /// A boolean byte that was neither 0 nor 1.
    InvalidBool(u8),
    /// The bytes of a string were not valid UTF-8.
    InvalidUtf8,
    /// The code units of a string were not valid UTF-16.
    InvalidUtf16,
    /// An array length above `MAX_LENGTH`.
    ArrayTooLong(usize),
    /// A length that does not fit in the length prefix.
    LengthOverflow(usize),
    /// A discriminant that names no variant of the named enum.
    UnknownVariant(&'static str),
    /// A string length prefix below zero.
    NegativeLength(i16),
    /// An array length prefix that gives no length.
    InvalidPrefix,
}

/// A value that can be decoded from the wire.
pub trait Readable: Sized + DeepView {
    /// The inputs on which decoding does its work rather than abort.
    spec fn read_defined(bytes: Seq<u8>) -> bool;

    /// The decoded model and the number of bytes consumed, or `None`
    /// when the input is not a valid encoding.
    spec fn spec_read(bytes: Seq<u8>) -> Option<(Self::V, nat)>;

    proof fn lemma_read_bounded(bytes: Seq<u8>)
        ensures
            Self::spec_read(bytes) matches Some((_, n)) ==> n <= bytes.len(),
    ;

    /// Reads this type from the given buffer.
    fn read(buffer: &mut Cursor, version: ProtocolVersion) -> (r: Result<Self, Error>)
        requires
            Self::read_defined(old(buffer).remaining()),
        ensures
            final(buffer).data() == old(buffer).data(),
            match Self::spec_read(old(buffer).remaining()) {
                Some((v, n)) => r matches Ok(x) && x.deep_view() == v && final(buffer).position()
                    == old(buffer).position() + n,
                None => r is Err,
            },
    ;
}

/// A value that can be encoded for the wire.
pub trait Writeable: Sized + DeepView {
    /// The values that can be written without aborting.
    spec fn write_defined(v: Self::V) -> bool;

    /// The encoding of a model, or `None` when the value cannot be encoded.
    spec fn spec_write(v: Self::V) -> Option<Seq<u8>>;

    /// Writes this value to the given buffer.
    fn write(&self, buffer: &mut Vec<u8>, version: ProtocolVersion) -> (r: Result<(), Error>)
        requires
            Self::write_defined(self.deep_view()),
        ensures
            match Self::spec_write(self.deep_view()) {
                Some(b) => r is Ok && final(buffer)@ == old(buffer)@ + b,
                None => r is Err,
            },
    ;
}

/// A type whose decoding gives back what its encoding wrote.
pub trait WireFormat: Readable + Writeable {
    /// The models on which decoding the encoding gives the model back.
    spec fn round_trips(v: <Self as DeepView>::V) -> bool;

    /// Decoding the encoding of `v`, followed by any other bytes, gives back
    /// `v` and consumes exactly the encoding.
    proof fn lemma_round_trip(v: <Self as DeepView>::V, extra: Seq<u8>)
        requires
            Self::round_trips(v),
            Self::write_defined(v),
            Self::spec_write(v) is Some,
        ensures
            Self::read_defined(Self::spec_write(v)->0 + extra),
            Self::spec_read(Self::spec_write(v)->0 + extra) == Some(
                (v, Self::spec_write(v)->0.len()),
            ),
    ;
}

impl Readable for u8 {
    open spec fn read_defined(bytes: Seq<u8>) -> bool {
        true
    }

    open spec fn spec_read(bytes: Seq<u8>) -> Option<(u8, nat)> {
        if bytes.len() >= 1 {
            Some((bytes[0], 1))
        } else {
            None
        }
    }

    proof fn lemma_read_bounded(bytes: Seq<u8>) {
    }

    fn read(buffer: &mut Cursor, version: ProtocolVersion) -> (r: Result<u8, Error>) {
        match buffer.next_byte() {
            Some(b) => Ok(b),
            None => Err(Error::UnexpectedEof("u8")),
        }
    }
}

impl Writeable for u8 {
    open spec fn write_defined(v: u8) -> bool {
        true
    }

    open spec fn spec_write(v: u8) -> Option<Seq<u8>> {
        Some(seq![v])
    }

    fn write(&self, buffer: &mut Vec<u8>, version: ProtocolVersion) -> (r: Result<(), Error>) {
        buffer.push(*self);
        Ok(())
    }
}

impl WireFormat for u8 {
    open spec fn round_trips(v: u8) -> bool {
        true
    }

    proof fn lemma_round_trip(v: u8, extra: Seq<u8>) {
    }
}

impl<T: Readable> Readable for Option<T> {
    open spec fn read_defined(bytes: Seq<u8>) -> bool {
        bytes.len() >= 1 && bytes[0] == 1 ==> T::read_defined(bytes.skip(1))
    }

    open spec fn spec_read(bytes: Seq<u8>) -> Option<(Option<T::V>, nat)> {
        if bytes.len() >= 1 && bytes[0] == 0 {
            Some((None, 1))
        } else if bytes.len() >= 1 && bytes[0] == 1 {
            match T::spec_read(bytes.skip(1)) {
                Some((v, n)) => Some((Some(v), n + 1)),
                None => None,
            }
        } else {
            None
        }
    }

    proof fn lemma_read_bounded(bytes: Seq<u8>) {
        if bytes.len() >= 1 {
            T::lemma_read_bounded(bytes.skip(1));
        }
    }

    fn read(buffer: &mut Cursor, version: ProtocolVersion) -> (r: Result<Option<T>, Error>) {
        buffer.note_in_bounds();
        let ghost before = *buffer;
        let present = bool::read(buffer, version)?;
        if present {
            proof {
                Cursor::lemma_advance(before, *buffer, 1);
            }
            let v = T::read(buffer, version)?;
            Ok(Some(v))
        } else {
            Ok(None)
        }
    }
}

impl<T: Writeable> Writeable for Option<T> {
    open spec fn write_defined(v: Option<T::V>) -> bool {
        v matches Some(x) ==> T::write_defined(x)
    }

    open spec fn spec_write(v: Option<T::V>) -> Option<Seq<u8>> {
        match v {
            None => Some(seq![0u8]),
            Some(x) => match T::spec_write(x) {
                Some(b) => Some(seq![1u8] + b),
                None => None,
            },
        }
    }

    fn write(&self, buffer: &mut Vec<u8>, version: ProtocolVersion) -> (r: Result<(), Error>) {
        let present = self.is_some();
        present.write(buffer, version)?;
        if let Some(value) = self {
            let ghost mid = buffer@;
            value.write(buffer, version)?;
            assert(buffer@ =~= old(buffer)@ + (seq![1u8] + T::spec_write(value.deep_view())->0));
        } else {
        }
        Ok(())
    }
}

impl<T: WireFormat> WireFormat for Option<T> {
    open spec fn round_trips(v: Option<T::V>) -> bool {
        v matches Some(x) ==> T::round_trips(x)
    }

    proof fn lemma_round_trip(v: Option<T::V>, extra: Seq<u8>) {
        match v {
            None => {},
            Some(x) => {
                let b = T::spec_write(x)->0;
                T::lemma_round_trip(x, extra);
                assert((seq![1u8] + b + extra).skip(1) =~= b + extra);
            },
        }
    }
}


/// The big-endian bytes of a 16-bit value.
pub open spec fn be16(v: u16) -> Seq<u8> {
    seq![(v >> 8u16) as u8, v as u8]
}

/// The 16-bit value of two big-endian bytes.
pub open spec fn from_be16(b0: u8, b1: u8) -> u16 {
    ((b0 as u16) << 8u16) | (b1 as u16)
}

/// The big-endian bytes of a 32-bit value: its high half, then its low half.
pub open spec fn be32(v: u32) -> Seq<u8> {
    be16((v >> 16u32) as u16) + be16(v as u16)
}

pub open spec fn join32(hi: u16, lo: u16) -> u32 {
    ((hi as u32) << 16u32) | (lo as u32)
}

pub open spec fn from_be32(b: Seq<u8>) -> u32 {
    join32(from_be16(b[0], b[1]), from_be16(b[2], b[3]))
}

/// The big-endian bytes of a 64-bit value: its high half, then its low half.
pub open spec fn be64(v: u64) -> Seq<u8> {
    be32((v >> 32u64) as u32) + be32(v as u32)
}

pub open spec fn join64(hi: u32, lo: u32) -> u64 {
    ((hi as u64) << 32u64) | (lo as u64)
}

pub open spec fn from_be64(b: Seq<u8>) -> u64 {
    join64(from_be32(b.subrange(0, 4)), from_be32(b.subrange(4, 8)))
}

proof fn lemma_be16_round_trip(v: u16)
    ensures
        from_be16((v >> 8u16) as u8, v as u8) == v,
{
    assert(((((v >> 8u16) as u8) as u16) << 8u16) | ((v as u8) as u16) == v) by (bit_vector);
}

proof fn lemma_join32_split(v: u32)
    ensures
        join32((v >> 16u32) as u16, v as u16) == v,
{
    assert(((((v >> 16u32) as u16) as u32) << 16u32) | ((v as u16) as u32) == v) by (bit_vector);
}

proof fn lemma_join64_split(v: u64)
    ensures
        join64((v >> 32u64) as u32, v as u32) == v,
{
    assert(((((v >> 32u64) as u32) as u64) << 32u64) | ((v as u32) as u64) == v) by (bit_vector);
}

proof fn lemma_be32_round_trip(v: u32)
    ensures
        be32(v).len() == 4,
        from_be32(be32(v)) == v,
{
    lemma_be16_round_trip((v >> 16u32) as u16);
    lemma_be16_round_trip(v as u16);
    lemma_join32_split(v);
}

proof fn lemma_be64_round_trip(v: u64)
    ensures
        be64(v).len() == 8,
        from_be64(be64(v)) == v,
{
    lemma_be32_round_trip((v >> 32u64) as u32);
    lemma_be32_round_trip(v as u32);
    assert(be64(v).subrange(0, 4) =~= be32((v >> 32u64) as u32));
    assert(be64(v).subrange(4, 8) =~= be32(v as u32));
    lemma_join64_split(v);
}

proof fn lemma_i16_cast_round_trip(v: i16)
    ensures
        ((v as u16) as i16) == v,
{
    assert(((v as u16) as i16) == v) by (bit_vector);
}

proof fn lemma_i32_cast_round_trip(v: i32)
    ensures
        ((v as u32) as i32) == v,
{
    assert(((v as u32) as i32) == v) by (bit_vector);
}

proof fn lemma_i64_cast_round_trip(v: i64)
    ensures
        ((v as u64) as i64) == v,
{
    assert(((v as u64) as i64) == v) by (bit_vector);
}

proof fn lemma_i8_cast_round_trip(v: i8)
    ensures
        ((v as u8) as i8) == v,
{
    assert(((v as u8) as i8) == v) by (bit_vector);
}

impl Readable for i8 {
    open spec fn read_defined(bytes: Seq<u8>) -> bool {
        true
    }

    open spec fn spec_read(bytes: Seq<u8>) -> Option<(i8, nat)> {
        if bytes.len() >= 1 {
            Some((bytes[0] as i8, 1))
        } else {
            None
        }
    }

    proof fn lemma_read_bounded(bytes: Seq<u8>) {
    }

    fn read(buffer: &mut Cursor, version: ProtocolVersion) -> (r: Result<i8, Error>) {
        match buffer.next_byte() {
            Some(b) => Ok(b as i8),
            None => Err(Error::UnexpectedEof("i8")),
        }
    }
}

impl Writeable for i8 {
    open spec fn write_defined(v: i8) -> bool {
        true
    }

    open spec fn spec_write(v: i8) -> Option<Seq<u8>> {
        Some(seq![v as u8])
    }

    fn write(&self, buffer: &mut Vec<u8>, version: ProtocolVersion) -> (r: Result<(), Error>) {
        buffer.push(*self as u8);
        Ok(())
    }
}

impl WireFormat for i8 {
    open spec fn round_trips(v: i8) -> bool {
        true
    }

    proof fn lemma_round_trip(v: i8, extra: Seq<u8>) {
        lemma_i8_cast_round_trip(v);
    }
}

/// Reads two bytes as a big-endian `u16`.
fn read_be16(buffer: &mut Cursor, name: &'static str) -> (r: Result<u16, Error>)
    ensures
        final(buffer).data() == old(buffer).data(),
        old(buffer).remaining().len() >= 2 ==> r == Ok::<u16, Error>(
            from_be16(old(buffer).remaining()[0], old(buffer).remaining()[1]),
        ) && final(buffer).position() == old(buffer).position() + 2,
        old(buffer).remaining().len() < 2 ==> r is Err,
{
    match buffer.take(2) {
        Some(s) => Ok(((s[0] as u16) << 8u16) | (s[1] as u16)),
        None => Err(Error::UnexpectedEof(name)),
    }
}

/// Reads four bytes as a big-endian `u32`.
fn read_be32(buffer: &mut Cursor, name: &'static str) -> (r: Result<u32, Error>)
    ensures
        final(buffer).data() == old(buffer).data(),
        old(buffer).remaining().len() >= 4 ==> r == Ok::<u32, Error>(
            from_be32(old(buffer).remaining()),
        ) && final(buffer).position() == old(buffer).position() + 4,
        old(buffer).remaining().len() < 4 ==> r is Err,
{
    match buffer.take(4) {
        Some(s) => {
            let hi = ((s[0] as u16) << 8u16) | (s[1] as u16);
            let lo = ((s[2] as u16) << 8u16) | (s[3] as u16);
            Ok(((hi as u32) << 16u32) | (lo as u32))
        },
        None => Err(Error::UnexpectedEof(name)),
    }
}

/// Reads eight bytes as a big-endian `u64`.
fn read_be64(buffer: &mut Cursor, name: &'static str) -> (r: Result<u64, Error>)
    ensures
        final(buffer).data() == old(buffer).data(),
        old(buffer).remaining().len() >= 8 ==> r == Ok::<u64, Error>(
            from_be64(old(buffer).remaining()),
        ) && final(buffer).position() == old(buffer).position() + 8,
        old(buffer).remaining().len() < 8 ==> r is Err,
{
    buffer.note_in_bounds();
    let ghost before = *buffer;
    if buffer.remaining_len() < 8 {
        return Err(Error::UnexpectedEof(name));
    }
    let hi = read_be32(buffer, name)?;
    proof {
        Cursor::lemma_advance(before, *buffer, 4);
        assert(before.remaining().subrange(0, 4) =~= before.remaining().subrange(0, 4));
    }
    let ghost mid = *buffer;
    let lo = read_be32(buffer, name)?;
    proof {
        assert(mid.remaining() =~= before.remaining().skip(4));
        assert(from_be32(before.remaining().subrange(0, 4)) == from_be32(before.remaining()));
        assert(from_be32(before.remaining().subrange(4, 8)) == from_be32(mid.remaining()));
    }
    Ok(((hi as u64) << 32u64) | (lo as u64))
}

fn write_be16(buffer: &mut Vec<u8>, v: u16)
    ensures
        final(buffer)@ == old(buffer)@ + be16(v),
{
    buffer.push((v >> 8u16) as u8);
    buffer.push(v as u8);
    assert(buffer@ =~= old(buffer)@ + be16(v));
}

fn write_be32(buffer: &mut Vec<u8>, v: u32)
    ensures
        final(buffer)@ == old(buffer)@ + be32(v),
{
    write_be16(buffer, (v >> 16u32) as u16);
    write_be16(buffer, v as u16);
    assert(buffer@ =~= old(buffer)@ + be32(v));
}

fn write_be64(buffer: &mut Vec<u8>, v: u64)
    ensures
        final(buffer)@ == old(buffer)@ + be64(v),
{
    write_be32(buffer, (v >> 32u64) as u32);
    write_be32(buffer, v as u32);
    assert(buffer@ =~= old(buffer)@ + be64(v));
}

impl Readable for u16 {
    open spec fn read_defined(bytes: Seq<u8>) -> bool {
        true
    }

    open spec fn spec_read(bytes: Seq<u8>) -> Option<(u16, nat)> {
        if bytes.len() >= 2 {
            Some((from_be16(bytes[0], bytes[1]), 2))
        } else {
            None
        }
    }

    proof fn lemma_read_bounded(bytes: Seq<u8>) {
    }

    fn read(buffer: &mut Cursor, version: ProtocolVersion) -> (r: Result<u16, Error>) {
        let x = read_be16(buffer, "u16")?;
        Ok(x)
    }
}

impl Writeable for u16 {
    open spec fn write_defined(v: u16) -> bool {
        true
    }

    open spec fn spec_write(v: u16) -> Option<Seq<u8>> {
        Some(be16(v))
    }

    fn write(&self, buffer: &mut Vec<u8>, version: ProtocolVersion) -> (r: Result<(), Error>) {
        write_be16(buffer, *self);
        Ok(())
    }
}

impl WireFormat for u16 {
    open spec fn round_trips(v: u16) -> bool {
        true
    }

    proof fn lemma_round_trip(v: u16, extra: Seq<u8>) {
        lemma_be16_round_trip(v);
        
    }
}

impl Readable for i16 {
    open spec fn read_defined(bytes: Seq<u8>) -> bool {
        true
    }

    open spec fn spec_read(bytes: Seq<u8>) -> Option<(i16, nat)> {
        if bytes.len() >= 2 {
            Some((from_be16(bytes[0], bytes[1]) as i16, 2))
        } else {
            None
        }
    }

    proof fn lemma_read_bounded(bytes: Seq<u8>) {
    }

    fn read(buffer: &mut Cursor, version: ProtocolVersion) -> (r: Result<i16, Error>) {
        let x = read_be16(buffer, "i16")?;
        Ok(x as i16)
    }
}

impl Writeable for i16 {
    open spec fn write_defined(v: i16) -> bool {
        true
    }

    open spec fn spec_write(v: i16) -> Option<Seq<u8>> {
        Some(be16(v as u16))
    }

    fn write(&self, buffer: &mut Vec<u8>, version: ProtocolVersion) -> (r: Result<(), Error>) {
        write_be16(buffer, *self as u16);
        Ok(())
    }
}

impl WireFormat for i16 {
    open spec fn round_trips(v: i16) -> bool {
        true
    }

    proof fn lemma_round_trip(v: i16, extra: Seq<u8>) {
        lemma_be16_round_trip(v as u16);
        lemma_i16_cast_round_trip(v);
    }
}

impl Readable for u32 {
    open spec fn read_defined(bytes: Seq<u8>) -> bool {
        true
    }

    open spec fn spec_read(bytes: Seq<u8>) -> Option<(u32, nat)> {
        if bytes.len() >= 4 {
            Some((from_be32(bytes), 4))
        } else {
            None
        }
    }

    proof fn lemma_read_bounded(bytes: Seq<u8>) {
    }

    fn read(buffer: &mut Cursor, version: ProtocolVersion) -> (r: Result<u32, Error>) {
        let x = read_be32(buffer, "u32")?;
        Ok(x)
    }
}

impl Writeable for u32 {
    open spec fn write_defined(v: u32) -> bool {
        true
    }

    open spec fn spec_write(v: u32) -> Option<Seq<u8>> {
        Some(be32(v))
    }

    fn write(&self, buffer: &mut Vec<u8>, version: ProtocolVersion) -> (r: Result<(), Error>) {
        write_be32(buffer, *self);
        Ok(())
    }
}

impl WireFormat for u32 {
    open spec fn round_trips(v: u32) -> bool {
        true
    }

    proof fn lemma_round_trip(v: u32, extra: Seq<u8>) {
        lemma_be32_round_trip(v);
        assert((be32(v) + extra)[0] == be32(v)[0]);
        
    }
}

impl Readable for i32 {
    open spec fn read_defined(bytes: Seq<u8>) -> bool {
        true
    }

    open spec fn spec_read(bytes: Seq<u8>) -> Option<(i32, nat)> {
        if bytes.len() >= 4 {
            Some((from_be32(bytes) as i32, 4))
        } else {
            None
        }
    }

    proof fn lemma_read_bounded(bytes: Seq<u8>) {
    }

    fn read(buffer: &mut Cursor, version: ProtocolVersion) -> (r: Result<i32, Error>) {
        let x = read_be32(buffer, "i32")?;
        Ok(x as i32)
    }
}

impl Writeable for i32 {
    open spec fn write_defined(v: i32) -> bool {
        true
    }

    open spec fn spec_write(v: i32) -> Option<Seq<u8>> {
        Some(be32(v as u32))
    }

    fn write(&self, buffer: &mut Vec<u8>, version: ProtocolVersion) -> (r: Result<(), Error>) {
        write_be32(buffer, *self as u32);
        Ok(())
    }
}

impl WireFormat for i32 {
    open spec fn round_trips(v: i32) -> bool {
        true
    }

    proof fn lemma_round_trip(v: i32, extra: Seq<u8>) {
        lemma_be32_round_trip(v as u32);
        assert((be32(v as u32) + extra)[0] == be32(v as u32)[0]);
        lemma_i32_cast_round_trip(v);
    }
}

impl Readable for u64 {
    open spec fn read_defined(bytes: Seq<u8>) -> bool {
        true
    }

    open spec fn spec_read(bytes: Seq<u8>) -> Option<(u64, nat)> {
        if bytes.len() >= 8 {
            Some((from_be64(bytes), 8))
        } else {
            None
        }
    }

    proof fn lemma_read_bounded(bytes: Seq<u8>) {
    }

    fn read(buffer: &mut Cursor, version: ProtocolVersion) -> (r: Result<u64, Error>) {
        let x = read_be64(buffer, "u64")?;
        Ok(x)
    }
}

impl Writeable for u64 {
    open spec fn write_defined(v: u64) -> bool {
        true
    }

    open spec fn spec_write(v: u64) -> Option<Seq<u8>> {
        Some(be64(v))
    }

    fn write(&self, buffer: &mut Vec<u8>, version: ProtocolVersion) -> (r: Result<(), Error>) {
        write_be64(buffer, *self);
        Ok(())
    }
}

impl WireFormat for u64 {
    open spec fn round_trips(v: u64) -> bool {
        true
    }

    proof fn lemma_round_trip(v: u64, extra: Seq<u8>) {
        lemma_be64_round_trip(v);
        assert((be64(v) + extra).subrange(0, 8) =~= be64(v));
        
    }
}

impl Readable for i64 {
    open spec fn read_defined(bytes: Seq<u8>) -> bool {
        true
    }

    open spec fn spec_read(bytes: Seq<u8>) -> Option<(i64, nat)> {
        if bytes.len() >= 8 {
            Some((from_be64(bytes) as i64, 8))
        } else {
            None
        }
    }

    proof fn lemma_read_bounded(bytes: Seq<u8>) {
    }

    fn read(buffer: &mut Cursor, version: ProtocolVersion) -> (r: Result<i64, Error>) {
        let x = read_be64(buffer, "i64")?;
        Ok(x as i64)
    }
}

impl Writeable for i64 {
    open spec fn write_defined(v: i64) -> bool {
        true
    }

    open spec fn spec_write(v: i64) -> Option<Seq<u8>> {
        Some(be64(v as u64))
    }

    fn write(&self, buffer: &mut Vec<u8>, version: ProtocolVersion) -> (r: Result<(), Error>) {
        write_be64(buffer, *self as u64);
        Ok(())
    }
}

impl WireFormat for i64 {
    open spec fn round_trips(v: i64) -> bool {
        true
    }

    proof fn lemma_round_trip(v: i64, extra: Seq<u8>) {
        lemma_be64_round_trip(v as u64);
        assert((be64(v as u64) + extra).subrange(0, 8) =~= be64(v as u64));
        lemma_i64_cast_round_trip(v);
    }
}

impl Readable for bool {
    open spec fn read_defined(bytes: Seq<u8>) -> bool {
        true
    }

    open spec fn spec_read(bytes: Seq<u8>) -> Option<(bool, nat)> {
        if bytes.len() >= 1 && bytes[0] == 0 {
            Some((false, 1))
        } else if bytes.len() >= 1 && bytes[0] == 1 {
            Some((true, 1))
        } else {
            None
        }
    }

    proof fn lemma_read_bounded(bytes: Seq<u8>) {
    }

    fn read(buffer: &mut Cursor, version: ProtocolVersion) -> (r: Result<bool, Error>) {
        let x = u8::read(buffer, version)?;
        if x == 0 {
            Ok(false)
        } else if x == 1 {
            Ok(true)
        } else {
            Err(Error::InvalidBool(x))
        }
    }
}

impl Writeable for bool {
    open spec fn write_defined(v: bool) -> bool {
        true
    }

    open spec fn spec_write(v: bool) -> Option<Seq<u8>> {
        Some(seq![if v { 1u8 } else { 0u8 }])
    }

    fn write(&self, buffer: &mut Vec<u8>, version: ProtocolVersion) -> (r: Result<(), Error>) {
        let x: u8 = if *self { 1 } else { 0 };
        x.write(buffer, version)
    }
}

impl WireFormat for bool {
    open spec fn round_trips(v: bool) -> bool {
        true
    }

    proof fn lemma_round_trip(v: bool, extra: Seq<u8>) {
    }
}

} // verus!

verus! {

/// The longest string whose byte length an `i16` prefix can hold.
pub const MAX_STRING_BYTES: usize = 32767;

/// `std::str::from_utf8`: the bytes as a string slice when they are valid
/// UTF-8, with the characters that they encode; `None` otherwise.
#[verifier::external_body]
fn utf8_str<'b>(bytes: &'b [u8]) -> (r: Option<&'b str>)
    ensures
        r is Some <==> valid_utf8(bytes@),
        r matches Some(s) ==> s@ == decode_utf8(bytes@),
{
    std::str::from_utf8(bytes).ok()
}

/// The `i16` length prefix read from the front of `bytes`.
pub open spec fn prefix_i16(bytes: Seq<u8>) -> i16 {
    from_be16(bytes[0], bytes[1]) as i16
}

impl Readable for String {
    /// Every input: a negative length is refused with an error.
    open spec fn read_defined(bytes: Seq<u8>) -> bool {
        true
    }

    open spec fn spec_read(bytes: Seq<u8>) -> Option<(Seq<char>, nat)> {
        if bytes.len() < 2 || prefix_i16(bytes) < 0 {
            None
        } else {
            let n = prefix_i16(bytes) as nat;
            if bytes.len() < 2 + n {
                None
            } else if !valid_utf8(bytes.subrange(2, 2 + n as int)) {
                None
            } else {
                Some((decode_utf8(bytes.subrange(2, 2 + n as int)), 2 + n))
            }
        }
    }

    proof fn lemma_read_bounded(bytes: Seq<u8>) {
    }

    fn read(buffer: &mut Cursor, version: ProtocolVersion) -> (r: Result<String, Error>) {
        buffer.note_in_bounds();
        let ghost before = *buffer;
        let length = i16::read(buffer, version)?;
        proof {
            Cursor::lemma_advance(before, *buffer, 2);
        }
        if length < 0 {
            return Err(Error::NegativeLength(length));
        }
        let length = length as usize;
        let bytes = match buffer.take(length) {
            Some(b) => b,
            None => {
                return Err(Error::UnexpectedEof("String"));
            },
        };
        proof {
            assert(bytes@ =~= before.remaining().subrange(2, 2 + length));
        }
        match utf8_str(bytes) {
            Some(s) => Ok(s.to_owned()),
            None => Err(Error::InvalidUtf8),
        }
    }
}

impl Writeable for String {
    open spec fn write_defined(v: Seq<char>) -> bool {
        true
    }

    /// The byte length, truncated to an `i16`, then the UTF-8 bytes.
    open spec fn spec_write(v: Seq<char>) -> Option<Seq<u8>> {
        Some(be16((((encode_utf8(v).len() as usize) as i16) as u16)) + encode_utf8(v))
    }

    fn write(&self, buffer: &mut Vec<u8>, version: ProtocolVersion) -> (r: Result<(), Error>) {
        let s = self.as_str();
        let length = #[verifier::truncate] (s.len() as i16);
        length.write(buffer, version)?;
        let ghost mid = buffer@;
        let bytes = s.as_bytes();
        buffer.extend_from_slice(bytes);
        assert(bytes@ == encode_utf8(self@));
        assert(buffer@ =~= old(buffer)@ + Self::spec_write(self@)->0);
        Ok(())
    }
}

impl WireFormat for String {
    open spec fn round_trips(v: Seq<char>) -> bool {
        encode_utf8(v).len() <= MAX_STRING_BYTES
    }

    proof fn lemma_round_trip(v: Seq<char>, extra: Seq<u8>) {
        let body = encode_utf8(v);
        let n = body.len();
        let x = ((n as usize) as i16) as u16;
        lemma_be16_round_trip(x);
        let all = be16(x) + body + extra;
        assert(Self::spec_write(v)->0 + extra == all);
        assert(all.subrange(2, 2 + n as int) =~= body);
        encode_utf8_valid_utf8(v);
        encode_utf8_decode_utf8(v);
    }
}

} // verus!

verus! {

/// A string sent as UTF-16 code units, prefixed with an `i16` count.
#[derive(Debug)]
pub struct String16(pub String);

impl DeepView for String16 {
    type V = Seq<char>;

    open spec fn deep_view(&self) -> Seq<char> {
        self.0@
    }
}

/// The UTF-16 code units of one character.
pub open spec fn utf16_units(c: char) -> Seq<u16> {
    let v = c as u32;
    if v < 0x10000 {
        seq![v as u16]
    } else {
        let w = (v - 0x10000) as u32;
        seq![(0xD800 + (w >> 10u32)) as u16, (0xDC00 + (w & 0x3FFu32)) as u16]
    }
}

/// The UTF-16 code units of a character sequence.
pub open spec fn encode_utf16(cs: Seq<char>) -> Seq<u16>
    decreases cs.len(),
{
    if cs.len() == 0 {
        seq![]
    } else {
        encode_utf16(cs.drop_last()) + utf16_units(cs.last())
    }
}

/// Whether a code unit is a surrogate.
pub open spec fn is_surrogate(u: u16) -> bool {
    0xD800 <= u <= 0xDFFF
}

/// The characters that UTF-16 code units encode, or `None` when a
/// surrogate is unpaired.
pub open spec fn decode_utf16(units: Seq<u16>) -> Option<Seq<char>>
    decreases units.len(),
{
    if units.len() == 0 {
        Some(seq![])
    } else if !is_surrogate(units[0]) {
        match decode_utf16(units.skip(1)) {
            Some(rest) => Some(seq![(units[0] as u32) as char] + rest),
            None => None,
        }
    } else if units[0] <= 0xDBFF && units.len() >= 2 && 0xDC00 <= units[1] <= 0xDFFF {
        let c = ((((units[0] - 0xD800) as u32) << 10u32) + ((units[1] - 0xDC00) as u32)
            + 0x10000) as u32;
        match decode_utf16(units.skip(2)) {
            Some(rest) => Some(seq![c as char] + rest),
            None => None,
        }
    } else {
        None
    }
}

/// The big-endian bytes of a sequence of code units.
pub open spec fn units_be(units: Seq<u16>) -> Seq<u8>
    decreases units.len(),
{
    if units.len() == 0 {
        seq![]
    } else {
        units_be(units.drop_last()) + be16(units.last())
    }
}

/// The code units of big-endian byte pairs.
pub open spec fn be_units(bytes: Seq<u8>) -> Seq<u16> {
    Seq::new(bytes.len() / 2, |i: int| from_be16(bytes[2 * i], bytes[2 * i + 1]))
}

/// `String::from_utf16`: the string that the code units encode, or `None`
/// when a surrogate is unpaired.
#[verifier::external_body]
fn string_from_utf16(units: &[u16]) -> (r: Option<String>)
    ensures
        r is Some <==> decode_utf16(units@) is Some,
        r matches Some(s) ==> s@ == decode_utf16(units@)->0,
{
    String::from_utf16(units).ok()
}

/// Whether every character is in the Basic Multilingual Plane, so that it
/// takes one code unit.
pub open spec fn all_bmp(cs: Seq<char>) -> bool {
    forall|i: int| 0 <= i < cs.len() ==> (#[trigger] cs[i] as u32) < 0x10000
}

fn push_utf16_units(units: &mut Vec<u16>, c: char)
    ensures
        final(units)@ == old(units)@ + utf16_units(c),
{
    let v = c as u32;
    proof {
        char_is_scalar(c);
    }
    if v < 0x10000 {
        units.push(v as u16);
    } else {
        let w = v - 0x10000;
        assert(w >> 10u32 <= 0x3FF) by (bit_vector)
            requires
                w <= 0xFFFFF,
        ;
        assert(w & 0x3FFu32 <= 0x3FF) by (bit_vector);
        units.push((0xD800 + (w >> 10u32)) as u16);
        units.push((0xDC00 + (w & 0x3FFu32)) as u16);
    }
    assert(units@ =~= old(units)@ + utf16_units(c));
}

impl String16 {
    /// The code units of the string and its number of characters.
    pub(crate) fn utf16_and_count(&self) -> (r: (Vec<u16>, usize))
        ensures
            r.0@ == encode_utf16(self.0@),
            r.1 == self.0@.len(),
    {
        let mut units: Vec<u16> = Vec::new();
        let mut count: usize = 0;
        let s = self.0.as_str();
        let nbytes = s.as_bytes().len();
        proof {
            broadcast use vstd::string::group_string_axioms;
            lemma_chars_fit_bytes(s@);
        }
        for c in it: s.chars()
            invariant
                it.seq() == s@,
                s@ == self.0@,
                encode_utf8(s@).len() <= usize::MAX,
                s@.len() <= encode_utf8(s@).len(),
                count == it.index(),
                units@ == encode_utf16(it.seq().take(it.index() as int)),
        {
            proof {
                let t = it.seq().take(it.index() as int + 1);
                assert(t.drop_last() =~= it.seq().take(it.index() as int));
            }
            push_utf16_units(&mut units, c);
            count = count + 1;
        }
        proof {
            assert(s@.take(s@.len() as int) =~= s@);
        }
        (units, count)
    }
}

proof fn lemma_chars_fit_bytes(cs: Seq<char>)
    ensures
        cs.len() <= encode_utf8(cs).len(),
    decreases cs.len(),
{
    if cs.len() > 0 {
        lemma_chars_fit_bytes(cs.drop_first());
    }
}

} // verus!

verus! {

/// Each character of the Basic Multilingual Plane is one code unit.
proof fn lemma_encode_utf16_bmp(cs: Seq<char>)
    requires
        all_bmp(cs),
    ensures
        encode_utf16(cs) == Seq::new(cs.len(), |i: int| (cs[i] as u32) as u16),
    decreases cs.len(),
{
    if cs.len() > 0 {
        let init = cs.drop_last();
        assert(all_bmp(init)) by {
            assert forall|i: int| 0 <= i < init.len() implies (#[trigger] init[i] as u32) < 0x10000 by {
                assert(init[i] == cs[i]);
            }
        }
        lemma_encode_utf16_bmp(init);
        assert(cs[cs.len() - 1] == cs.last());
        assert(encode_utf16(cs) =~= Seq::new(cs.len(), |i: int| (cs[i] as u32) as u16));
    }
}

/// Decoding the one-unit encodings of characters gives them back.
proof fn lemma_decode_utf16_bmp(cs: Seq<char>)
    requires
        all_bmp(cs),
    ensures
        decode_utf16(Seq::new(cs.len(), |i: int| (cs[i] as u32) as u16)) == Some(cs),
    decreases cs.len(),
{
    let units = Seq::new(cs.len(), |i: int| (cs[i] as u32) as u16);
    if cs.len() > 0 {
        let rest = cs.skip(1);
        assert(all_bmp(rest)) by {
            assert forall|i: int| 0 <= i < rest.len() implies (#[trigger] rest[i] as u32) < 0x10000 by {
                assert(rest[i] == cs[i + 1]);
            }
        }
        lemma_decode_utf16_bmp(rest);
        assert(units.skip(1) =~= Seq::new(rest.len(), |i: int| (rest[i] as u32) as u16));
        let c = cs[0];
        char_is_scalar(c);
        assert((c as u32) < 0x10000);
        assert(units[0] == (c as u32) as u16);
        assert((units[0] as u32) == c as u32);
        char_u32_cast(c, units[0] as u32);
        assert(!is_surrogate(units[0]));
        assert(seq![(units[0] as u32) as char] + rest =~= cs);
    }
}

/// The bytes at `2 * i` and `2 * i + 1` of `units_be(us)` are those of unit `i`.
proof fn lemma_units_be_index(us: Seq<u16>)
    ensures
        units_be(us).len() == 2 * us.len(),
        forall|i: int|
            0 <= i < us.len() ==> #[trigger] units_be(us)[2 * i] == (us[i] >> 8u16) as u8
                && units_be(us)[2 * i + 1] == us[i] as u8,
    decreases us.len(),
{
    if us.len() > 0 {
        lemma_units_be_index(us.drop_last());
        let init = us.drop_last();
        assert forall|i: int| 0 <= i < us.len() implies #[trigger] units_be(us)[2 * i] == (
        us[i] >> 8u16) as u8 && units_be(us)[2 * i + 1] == us[i] as u8 by {
            if i < us.len() - 1 {
                assert(units_be(init)[2 * i] == (init[i] >> 8u16) as u8);
            }
        }
    }
}

/// Pairing the bytes of `units_be(us)` gives back `us`.
proof fn lemma_be_units_round_trip(us: Seq<u16>, extra: Seq<u8>)
    ensures
        (units_be(us) + extra).subrange(0, 2 * us.len() as int) == units_be(us),
        be_units(units_be(us)) == us,
{
    lemma_units_be_index(us);
    let b = units_be(us);
    assert((b + extra).subrange(0, 2 * us.len() as int) =~= b);
    assert forall|i: int| 0 <= i < us.len() implies #[trigger] be_units(b)[i] == us[i] by {
        assert(b[2 * i] == (us[i] >> 8u16) as u8);
        lemma_be16_round_trip(us[i]);
    }
    assert(be_units(b) =~= us);
}

pub(crate) fn write_units(units: &Vec<u16>, out: &mut Vec<u8>)
    ensures
        final(out)@ == old(out)@ + units_be(units@),
{
    let mut i: usize = 0;
    while i < units.len()
        invariant
            i <= units@.len(),
            out@ == old(out)@ + units_be(units@.take(i as int)),
        decreases units@.len() - i,
    {
        write_be16(out, units[i]);
        proof {
            let t = units@.take(i as int + 1);
            assert(t.drop_last() =~= units@.take(i as int));
            assert(t.last() == units@[i as int]);
        }
        i = i + 1;
    }
    assert(units@.take(units@.len() as int) =~= units@);
}

impl Writeable for String16 {
    open spec fn write_defined(v: Seq<char>) -> bool {
        true
    }

    /// The character count, truncated to an `i16`, then the code units.
    open spec fn spec_write(v: Seq<char>) -> Option<Seq<u8>> {
        Some(be16((((v.len() as usize) as i16) as u16)) + units_be(encode_utf16(v)))
    }

    fn write(&self, buffer: &mut Vec<u8>, version: ProtocolVersion) -> (r: Result<(), Error>) {
        let (units, count) = self.utf16_and_count();
        let count = #[verifier::truncate] (count as i16);
        count.write(buffer, version)?;
        let ghost mid = buffer@;
        write_units(&units, buffer);
        assert(buffer@ =~= old(buffer)@ + Self::spec_write(self.deep_view())->0);
        Ok(())
    }
}

impl Readable for String16 {
    /// Every input: a negative length is refused with an error.
    open spec fn read_defined(bytes: Seq<u8>) -> bool {
        true
    }

    open spec fn spec_read(bytes: Seq<u8>) -> Option<(Seq<char>, nat)> {
        if bytes.len() < 2 || prefix_i16(bytes) < 0 {
            None
        } else {
            let n = 2 * (prefix_i16(bytes) as nat);
            if bytes.len() < 2 + n {
                None
            } else {
                match decode_utf16(be_units(bytes.subrange(2, 2 + n as int))) {
                    Some(cs) => Some((cs, 2 + n)),
                    None => None,
                }
            }
        }
    }

    proof fn lemma_read_bounded(bytes: Seq<u8>) {
    }

    fn read(buffer: &mut Cursor, version: ProtocolVersion) -> (r: Result<String16, Error>) {
        buffer.note_in_bounds();
        let ghost before = *buffer;
        let length = i16::read(buffer, version)?;
        proof {
            Cursor::lemma_advance(before, *buffer, 2);
        }
        if length < 0 {
            return Err(Error::NegativeLength(length));
        }
        let length = (length as usize) * 2;
        let bytes = match buffer.take(length) {
            Some(b) => b,
            None => {
                return Err(Error::UnexpectedEof("String"));
            },
        };
        let mut units: Vec<u16> = Vec::new();
        let mut i: usize = 0;
        while i < length / 2
            invariant
                bytes@.len() == length,
                length % 2 == 0,
                i <= length / 2,
                units@ =~= be_units(bytes@).take(i as int),
            decreases length / 2 - i,
        {
            let unit = ((bytes[2 * i] as u16) << 8u16) | (bytes[2 * i + 1] as u16);
            units.push(unit);
            i = i + 1;
        }
        proof {
            assert(be_units(bytes@).take(i as int) =~= be_units(bytes@));
            assert(bytes@ =~= before.remaining().subrange(2, 2 + length));
        }
        match string_from_utf16(units.as_slice()) {
            Some(s) => Ok(String16(s)),
            None => Err(Error::InvalidUtf16),
        }
    }
}

impl WireFormat for String16 {
    /// Only characters of one code unit round-trip: the prefix counts
    /// characters while the reader takes it as a count of code units.
    open spec fn round_trips(v: Seq<char>) -> bool {
        all_bmp(v) && v.len() <= MAX_STRING_BYTES
    }

    proof fn lemma_round_trip(v: Seq<char>, extra: Seq<u8>) {
        let x = ((v.len() as usize) as i16) as u16;
        lemma_be16_round_trip(x);
        lemma_encode_utf16_bmp(v);
        let us = encode_utf16(v);
        lemma_be_units_round_trip(us, extra);
        lemma_decode_utf16_bmp(v);
        let body = units_be(us);
        let all = be16(x) + body + extra;
        assert(Self::spec_write(v)->0 + extra == all);
        assert(all.subrange(2, 2 + 2 * v.len() as int) =~= (body + extra).subrange(0, 2 * us.len() as int));
    }
}

} // verus!

verus! {

/// The most elements that a length-prefixed array may hold (2^20).
pub const MAX_LENGTH: usize = 1048576;

/// A value that prefixes an array with the array's length.
pub trait LengthPrefix: WireFormat {
    /// The length that a prefix gives; `None` where it gives none, as a
    /// negative number does.
    spec fn spec_len(v: Self::V) -> Option<nat>;

    /// The prefix of a length; `None` where the length does not fit.
    spec fn spec_of_len(n: nat) -> Option<Self::V>;

    /// The length that this prefix gives.
    fn to_len(&self) -> (r: Option<usize>)
        ensures
            match Self::spec_len(self.deep_view()) {
                Some(n) => n <= usize::MAX && r == Some(n as usize),
                None => r is None,
            },
    ;

    /// The prefix of the length `n`.
    fn of_len(n: usize) -> (r: Option<Self>)
        ensures
            match Self::spec_of_len(n as nat) {
                Some(v) => r matches Some(p) && p.deep_view() == v,
                None => r is None,
            },
    ;

    /// The prefix of a length gives that length back, and can be written
    /// and read back.
    proof fn lemma_len_of_len(n: nat)
        ensures
            Self::spec_of_len(n) matches Some(v) ==> Self::spec_len(v) == Some(n) && Self::write_defined(v)
                && Self::spec_write(v) is Some && Self::round_trips(v),
    ;
}

impl LengthPrefix for u16 {
    open spec fn spec_len(v: u16) -> Option<nat> {
        Some(v as nat)
    }

    open spec fn spec_of_len(n: nat) -> Option<u16> {
        if n <= u16::MAX {
            Some(n as u16)
        } else {
            None
        }
    }

    fn to_len(&self) -> (r: Option<usize>) {
        Some(*self as usize)
    }

    fn of_len(n: usize) -> (r: Option<u16>) {
        if n <= 65535 {
            Some(n as u16)
        } else {
            None
        }
    }

    proof fn lemma_len_of_len(n: nat) {
    }
}

impl LengthPrefix for u32 {
    open spec fn spec_len(v: u32) -> Option<nat> {
        Some(v as nat)
    }

    open spec fn spec_of_len(n: nat) -> Option<u32> {
        if n <= u32::MAX {
            Some(n as u32)
        } else {
            None
        }
    }

    fn to_len(&self) -> (r: Option<usize>) {
        Some(*self as usize)
    }

    fn of_len(n: usize) -> (r: Option<u32>) {
        if n <= 0xFFFF_FFFFusize {
            Some(n as u32)
        } else {
            None
        }
    }

    proof fn lemma_len_of_len(n: nat) {
    }
}

impl LengthPrefix for i32 {
    open spec fn spec_len(v: i32) -> Option<nat> {
        if v >= 0 {
            Some(v as nat)
        } else {
            None
        }
    }

    open spec fn spec_of_len(n: nat) -> Option<i32> {
        if n <= i32::MAX {
            Some(n as i32)
        } else {
            None
        }
    }

    fn to_len(&self) -> (r: Option<usize>) {
        if *self >= 0 {
            Some(*self as usize)
        } else {
            None
        }
    }

    fn of_len(n: usize) -> (r: Option<i32>) {
        if n <= 0x7FFF_FFFFusize {
            Some(n as i32)
        } else {
            None
        }
    }

    proof fn lemma_len_of_len(n: nat) {
    }
}

/// An array prefixed with its element count, written as a `P`.
///
/// Reading rejects arrays longer than `MAX_LENGTH`.
pub struct LengthPrefixedVec<P, T>(pub Vec<T>, pub core::marker::PhantomData<P>);

/// An array prefixed with its element count as a `u16`.
pub type ShortPrefixedVec<T> = LengthPrefixedVec<u16, T>;

impl<P, T> LengthPrefixedVec<P, T> {
    /// The array of the given elements.
    pub fn new(items: Vec<T>) -> (r: Self)
        ensures
            r.0 == items,
    {
        LengthPrefixedVec(items, core::marker::PhantomData)
    }
}

impl<P, T: DeepView> DeepView for LengthPrefixedVec<P, T> {
    type V = Seq<T::V>;

    open spec fn deep_view(&self) -> Seq<T::V> {
        self.0.deep_view()
    }
}

/// Decodes `n` values one after another: the models and the bytes consumed.
pub open spec fn read_n<T: Readable>(bytes: Seq<u8>, n: nat) -> Option<(Seq<T::V>, nat)>
    decreases n,
{
    if n == 0 {
        Some((seq![], 0))
    } else {
        match read_n::<T>(bytes, (n - 1) as nat) {
            Some((vs, m)) => match T::spec_read(bytes.skip(m as int)) {
                Some((v, k)) => Some((vs.push(v), m + k)),
                None => None,
            },
            None => None,
        }
    }
}

/// Decoding `n` values one after another does its work rather than abort.
pub open spec fn read_n_defined<T: Readable>(bytes: Seq<u8>, n: nat) -> bool
    decreases n,
{
    if n == 0 {
        true
    } else {
        read_n_defined::<T>(bytes, (n - 1) as nat) && (read_n::<T>(bytes, (n - 1) as nat) matches Some(
            (_, m),
        ) ==> T::read_defined(bytes.skip(m as int)))
    }
}

proof fn lemma_read_n_bounded<T: Readable>(bytes: Seq<u8>, n: nat)
    ensures
        read_n::<T>(bytes, n) matches Some((vs, m)) ==> m <= bytes.len() && vs.len() == n,
    decreases n,
{
    if n > 0 {
        lemma_read_n_bounded::<T>(bytes, (n - 1) as nat);
        if let Some((vs, m)) = read_n::<T>(bytes, (n - 1) as nat) {
            T::lemma_read_bounded(bytes.skip(m as int));
        }
    }
}

proof fn lemma_read_n_fails_on<T: Readable>(bytes: Seq<u8>, i: nat, n: nat)
    requires
        i <= n,
        read_n::<T>(bytes, i) is None,
    ensures
        read_n::<T>(bytes, n) is None,
    decreases n - i,
{
    if i < n {
        lemma_read_n_fails_on::<T>(bytes, i, (n - 1) as nat);
    }
}

proof fn lemma_read_n_defined_prefix<T: Readable>(bytes: Seq<u8>, i: nat, n: nat)
    requires
        i <= n,
        read_n_defined::<T>(bytes, n),
    ensures
        read_n_defined::<T>(bytes, i),
    decreases n - i,
{
    if i < n {
        lemma_read_n_defined_prefix::<T>(bytes, i, (n - 1) as nat);
    }
}

/// The concatenated encodings of a sequence of values.
pub open spec fn write_all<T: Writeable>(vs: Seq<T::V>) -> Seq<u8>
    decreases vs.len(),
{
    if vs.len() == 0 {
        seq![]
    } else {
        write_all::<T>(vs.drop_last()) + T::spec_write(vs.last())->0
    }
}

/// Every element can be written.
pub open spec fn all_writable<T: Writeable>(vs: Seq<T::V>) -> bool {
    forall|i: int|
        0 <= i < vs.len() ==> T::write_defined(#[trigger] vs[i]) && T::spec_write(vs[i]) is Some
}

impl<P: LengthPrefix, T: Readable> Readable for LengthPrefixedVec<P, T> {
    open spec fn read_defined(bytes: Seq<u8>) -> bool {
        &&& P::read_defined(bytes)
        &&& P::spec_read(bytes) matches Some((pv, k)) ==> (P::spec_len(pv) matches Some(n) ==> (n
            <= MAX_LENGTH ==> read_n_defined::<T>(bytes.skip(k as int), n)))
    }

    open spec fn spec_read(bytes: Seq<u8>) -> Option<(Seq<T::V>, nat)> {
        match P::spec_read(bytes) {
            None => None,
            Some((pv, k)) => match P::spec_len(pv) {
                None => None,
                Some(n) => if n > MAX_LENGTH {
                    None
                } else {
                    match read_n::<T>(bytes.skip(k as int), n) {
                        Some((vs, m)) => Some((vs, k + m)),
                        None => None,
                    }
                },
            },
        }
    }

    proof fn lemma_read_bounded(bytes: Seq<u8>) {
        P::lemma_read_bounded(bytes);
        if let Some((pv, k)) = P::spec_read(bytes) {
            if let Some(n) = P::spec_len(pv) {
                lemma_read_n_bounded::<T>(bytes.skip(k as int), n);
            }
        }
    }

    fn read(buffer: &mut Cursor, version: ProtocolVersion) -> (r: Result<LengthPrefixedVec<P, T>, Error>) {
        buffer.note_in_bounds();
        let ghost before = *buffer;
        let prefix = P::read(buffer, version)?;
        let ghost pr = P::spec_read(before.remaining())->0;
        let ghost k = pr.1;
        proof {
            P::lemma_read_bounded(before.remaining());
            Cursor::lemma_advance(before, *buffer, k);
        }
        let length = match prefix.to_len() {
            Some(n) => n,
            None => {
                return Err(Error::InvalidPrefix);
            },
        };
        if length > MAX_LENGTH {
            return Err(Error::ArrayTooLong(length));
        }
        let ghost rest = before.remaining().skip(k as int);
        let ghost start = buffer.position();
        let mut items: Vec<T> = Vec::new();
        let mut i: usize = 0;
        while i < length
            invariant
                i <= length,
                before == *old(buffer),
                P::spec_read(before.remaining()) matches Some((pv, kk)) && kk == k && P::spec_len(pv)
                    == Some(length as nat),
                rest == before.remaining().skip(k as int),
                length <= MAX_LENGTH,
                start == before.position() + k,
                buffer.data() == before.data(),
                buffer.in_bounds(),
                read_n_defined::<T>(rest, length as nat),
                read_n::<T>(rest, i as nat) matches Some((vs, m)) && items.deep_view() == vs
                    && buffer.position() == start + m && buffer.remaining() == rest.skip(m as int),
            decreases length - i,
        {
            let ghost cur = *buffer;
            let ghost (vs, m) = read_n::<T>(rest, i as nat)->0;
            proof {
                lemma_read_n_defined_prefix::<T>(rest, (i + 1) as nat, length as nat);
                lemma_read_n_bounded::<T>(rest, i as nat);
            }
            let item = match T::read(buffer, version) {
                Ok(item) => item,
                Err(e) => {
                    proof {
                        lemma_read_n_fails_on::<T>(rest, (i + 1) as nat, length as nat);
                    }
                    return Err(e);
                },
            };
            proof {
                let (_, kk) = T::spec_read(rest.skip(m as int))->0;
                T::lemma_read_bounded(rest.skip(m as int));
                Cursor::lemma_advance(cur, *buffer, kk);
                assert(rest.skip(m as int).skip(kk as int) =~= rest.skip((m + kk) as int));
            }
            items.push(item);
            proof {
                let (v, _) = T::spec_read(rest.skip(m as int))->0;
                assert(items.deep_view() =~= vs.push(v));
            }
            i = i + 1;
        }
        Ok(LengthPrefixedVec(items, core::marker::PhantomData))
    }
}

impl<P: LengthPrefix, T: Writeable> Writeable for LengthPrefixedVec<P, T> {
    /// Every element must write: an element that fails to write aborts.
    open spec fn write_defined(vs: Seq<T::V>) -> bool {
        all_writable::<T>(vs)
    }

    /// The length as a `P`, then the elements; `None` when the length does
    /// not fit in a `P`.
    open spec fn spec_write(vs: Seq<T::V>) -> Option<Seq<u8>> {
        match P::spec_of_len(vs.len()) {
            None => None,
            Some(pv) => Some(P::spec_write(pv)->0 + write_all::<T>(vs)),
        }
    }

    fn write(&self, buffer: &mut Vec<u8>, version: ProtocolVersion) -> (r: Result<(), Error>) {
        let len = self.0.len();
        let prefix = match P::of_len(len) {
            Some(p) => p,
            None => {
                return Err(Error::LengthOverflow(len));
            },
        };
        proof {
            P::lemma_len_of_len(len as nat);
        }
        match prefix.write(buffer, version) {
            Ok(()) => {},
            Err(e) => {
                return Err(e);
            },
        }
        let ghost vs = self.deep_view();
        let ghost start = buffer@;
        let mut i: usize = 0;
        while i < len
            invariant
                len == self.0@.len(),
                vs == self.deep_view(),
                vs.len() == len,
                all_writable::<T>(vs),
                i <= len,
                buffer@ == start + write_all::<T>(vs.take(i as int)),
            decreases len - i,
        {
            assert(vs[i as int] == self.0@[i as int].deep_view());
            let ghost before = buffer@;
            match self.0[i].write(buffer, version) {
                Ok(()) => {},
                Err(e) => {
                    return Err(e);
                },
            }
            proof {
                let t = vs.take(i as int + 1);
                assert(t.drop_last() =~= vs.take(i as int));
                assert(t.last() == vs[i as int]);
            }
            i = i + 1;
        }
        assert(vs.take(len as int) =~= vs);
        assert(buffer@ =~= old(buffer)@ + Self::spec_write(vs)->0);
        Ok(())
    }
}

/// Decoding the concatenated encodings of values gives them back.
proof fn lemma_read_n_write_all<T: WireFormat>(vs: Seq<T::V>, extra: Seq<u8>)
    requires
        all_writable::<T>(vs),
        forall|i: int| 0 <= i < vs.len() ==> T::round_trips(#[trigger] vs[i]),
    ensures
        read_n_defined::<T>(write_all::<T>(vs) + extra, vs.len()),
        read_n::<T>(write_all::<T>(vs) + extra, vs.len()) == Some((vs, write_all::<T>(vs).len())),
    decreases vs.len(),
{
    if vs.len() > 0 {
        let init = vs.drop_last();
        let last = vs.last();
        assert(T::write_defined(vs[vs.len() - 1]));
        let lb = T::spec_write(last)->0;
        let head = write_all::<T>(init);
        assert forall|i: int| 0 <= i < init.len() implies T::round_trips(#[trigger] init[i]) && T::write_defined(init[i]) && T::spec_write(init[i]) is Some by {
            assert(init[i] == vs[i]);
        }
        assert(write_all::<T>(vs) + extra == head + (lb + extra));
        lemma_read_n_write_all::<T>(init, lb + extra);
        assert(T::round_trips(vs[vs.len() - 1]));
        T::lemma_round_trip(last, extra);
        assert((head + (lb + extra)).skip(head.len() as int) =~= lb + extra);
        assert(init.push(last) =~= vs);
    }
}

impl<P: LengthPrefix, T: WireFormat> WireFormat for LengthPrefixedVec<P, T> {
    /// Each element reads back, and the array is not longer than reading
    /// takes.
    open spec fn round_trips(vs: Seq<T::V>) -> bool {
        &&& forall|i: int| 0 <= i < vs.len() ==> T::round_trips(#[trigger] vs[i])
        &&& vs.len() <= MAX_LENGTH
    }

    proof fn lemma_round_trip(vs: Seq<T::V>, extra: Seq<u8>) {
        P::lemma_len_of_len(vs.len());
        let pv = P::spec_of_len(vs.len())->0;
        let pb = P::spec_write(pv)->0;
        let body = write_all::<T>(vs);
        lemma_read_n_write_all::<T>(vs, extra);
        P::lemma_round_trip(pv, body + extra);
        let all = pb + body + extra;
        assert(Self::spec_write(vs)->0 + extra == all);
        assert(pb + (body + extra) == all);
        assert(all.skip(pb.len() as int) =~= body + extra);
    }
}

/// Every byte that is left in a packet.
pub struct LengthInferredVecU8(pub Vec<u8>);

impl DeepView for LengthInferredVecU8 {
    type V = Seq<u8>;

    open spec fn deep_view(&self) -> Seq<u8> {
        self.0@
    }
}

impl Readable for LengthInferredVecU8 {
    open spec fn read_defined(bytes: Seq<u8>) -> bool {
        true
    }

    open spec fn spec_read(bytes: Seq<u8>) -> Option<(Seq<u8>, nat)> {
        Some((bytes, bytes.len()))
    }

    proof fn lemma_read_bounded(bytes: Seq<u8>) {
    }

    fn read(buffer: &mut Cursor, version: ProtocolVersion) -> (r: Result<LengthInferredVecU8, Error>) {
        buffer.note_in_bounds();
        let rest = buffer.take_rest();
        let mut v: Vec<u8> = Vec::new();
        v.extend_from_slice(rest);
        assert(v@ =~= rest@);
        Ok(LengthInferredVecU8(v))
    }
}

impl Writeable for LengthInferredVecU8 {
    open spec fn write_defined(v: Seq<u8>) -> bool {
        true
    }

    open spec fn spec_write(v: Seq<u8>) -> Option<Seq<u8>> {
        Some(v)
    }

    fn write(&self, buffer: &mut Vec<u8>, version: ProtocolVersion) -> (r: Result<(), Error>) {
        buffer.extend_from_slice(self.0.as_slice());
        Ok(())
    }
}

} // verus!

verus! {

/// The decimal digits of a number.
pub open spec fn decimal(n: nat) -> Seq<char>
    decreases n,
{
    if n < 10 {
        seq![(48 + n) as char]
    } else {
        decimal(n / 10) + seq![(48 + n % 10) as char]
    }
}

/// The text of a server list ping reply: the message of the day, the
/// number of players online and the number of slots, separated by `§`.
pub open spec fn ping_text_chars(motd: Seq<char>, online_players: usize, slots: usize) -> Seq<char> {
    motd + seq!['\u{a7}'] + decimal(online_players as nat) + seq!['\u{a7}'] + decimal(
        slots as nat,
    )
}

/// The decimal digit `d`, as a string.
fn digit_str(d: usize) -> (r: &'static str)
    requires
        d < 10,
    ensures
        r@ == seq![(48 + d) as char],
{
    match d {
        0 => {
            proof {
                reveal_strlit("0");
            }
            "0"
        },
        1 => {
            proof {
                reveal_strlit("1");
            }
            "1"
        },
        2 => {
            proof {
                reveal_strlit("2");
            }
            "2"
        },
        3 => {
            proof {
                reveal_strlit("3");
            }
            "3"
        },
        4 => {
            proof {
                reveal_strlit("4");
            }
            "4"
        },
        5 => {
            proof {
                reveal_strlit("5");
            }
            "5"
        },
        6 => {
            proof {
                reveal_strlit("6");
            }
            "6"
        },
        7 => {
            proof {
                reveal_strlit("7");
            }
            "7"
        },
        8 => {
            proof {
                reveal_strlit("8");
            }
            "8"
        },
        _ => {
            proof {
                reveal_strlit("9");
            }
            "9"
        },
    }
}

/// Appends the decimal digits of `n` to `s`.
fn push_decimal(s: &mut String, n: usize)
    ensures
        final(s)@ == old(s)@ + decimal(n as nat),
    decreases n,
{
    if n < 10 {
        s.append(digit_str(n));
    } else {
        push_decimal(s, n / 10);
        s.append(digit_str(n % 10));
        assert(decimal(n as nat) == decimal((n / 10) as nat) + seq![(48 + n % 10) as char]);
    }
}

/// The message of the day, the player count and the slots, separated by
/// `§`, the numbers in decimal.
fn ping_text(motd: &str, online_players: usize, slots: usize) -> (r: String)
    ensures
        r@ == ping_text_chars(motd@, online_players, slots),
{
    let sep = "\u{a7}";
    proof {
        reveal_strlit("\u{a7}");
    }
    let mut s = motd.to_owned();
    s.append(sep);
    push_decimal(&mut s, online_players);
    s.append(sep);
    push_decimal(&mut s, slots);
    s
}

/// The reply to a server list ping.
#[derive(Debug)]
pub struct PingData {
    motd: String,
    online_players: usize,
    slots: usize,
}

impl DeepView for PingData {
    type V = (Seq<char>, usize, usize);

    closed spec fn deep_view(&self) -> (Seq<char>, usize, usize) {
        (self.motd@, self.online_players, self.slots)
    }
}

impl PingData {
    pub fn new(motd: String, online_players: usize, slots: usize) -> (r: Self)
        ensures
            r.deep_view() == (motd@, online_players, slots),
    {
        Self { motd, online_players, slots }
    }
}

impl Writeable for PingData {
    open spec fn write_defined(v: (Seq<char>, usize, usize)) -> bool {
        true
    }

    /// The reply text, sent as a `String16`.
    open spec fn spec_write(v: (Seq<char>, usize, usize)) -> Option<Seq<u8>> {
        String16::spec_write(ping_text_chars(v.0, v.1, v.2))
    }

    fn write(&self, buffer: &mut Vec<u8>, version: ProtocolVersion) -> (r: Result<(), Error>) {
        let text = ping_text(self.motd.as_str(), self.online_players, self.slots);
        String16(text).write(buffer, version)
    }
}

} // verus!

verus! {

/// Two values, one after the other.
impl<A: Readable, B: Readable> Readable for (A, B) {
    open spec fn read_defined(bytes: Seq<u8>) -> bool {
        A::read_defined(bytes) && (A::spec_read(bytes) matches Some((_, n)) ==> B::read_defined(
            bytes.skip(n as int),
        ))
    }

    open spec fn spec_read(bytes: Seq<u8>) -> Option<((A::V, B::V), nat)> {
        match A::spec_read(bytes) {
            Some((a, n)) => match B::spec_read(bytes.skip(n as int)) {
                Some((b, m)) => Some(((a, b), n + m)),
                None => None,
            },
            None => None,
        }
    }

    proof fn lemma_read_bounded(bytes: Seq<u8>) {
        A::lemma_read_bounded(bytes);
        if let Some((_, n)) = A::spec_read(bytes) {
            B::lemma_read_bounded(bytes.skip(n as int));
        }
    }

    fn read(buffer: &mut Cursor, version: ProtocolVersion) -> (r: Result<(A, B), Error>) {
        buffer.note_in_bounds();
        let ghost before = *buffer;
        let a = A::read(buffer, version)?;
        proof {
            let (_, n) = A::spec_read(before.remaining())->0;
            A::lemma_read_bounded(before.remaining());
            Cursor::lemma_advance(before, *buffer, n);
        }
        let b = B::read(buffer, version)?;
        Ok((a, b))
    }
}

impl<A: Writeable, B: Writeable> Writeable for (A, B) {
    open spec fn write_defined(v: (A::V, B::V)) -> bool {
        A::write_defined(v.0) && B::write_defined(v.1)
    }

    open spec fn spec_write(v: (A::V, B::V)) -> Option<Seq<u8>> {
        match (A::spec_write(v.0), B::spec_write(v.1)) {
            (Some(a), Some(b)) => Some(a + b),
            _ => None,
        }
    }

    fn write(&self, buffer: &mut Vec<u8>, version: ProtocolVersion) -> (r: Result<(), Error>) {
        self.0.write(buffer, version)?;
        self.1.write(buffer, version)?;
        proof {
            let a = A::spec_write(self.0.deep_view())->0;
            let b = B::spec_write(self.1.deep_view())->0;
            assert(buffer@ =~= old(buffer)@ + (a + b));
        }
        Ok(())
    }
}

impl<A: WireFormat, B: WireFormat> WireFormat for (A, B) {
    open spec fn round_trips(v: (A::V, B::V)) -> bool {
        A::round_trips(v.0) && B::round_trips(v.1) && A::spec_write(v.0) is Some
            && B::spec_write(v.1) is Some
    }

    proof fn lemma_round_trip(v: (A::V, B::V), extra: Seq<u8>) {
        let a = A::spec_write(v.0)->0;
        let b = B::spec_write(v.1)->0;
        assert(a + b + extra == a + (b + extra));
        A::lemma_round_trip(v.0, b + extra);
        assert((a + (b + extra)).skip(a.len() as int) =~= b + extra);
        B::lemma_round_trip(v.1, extra);
    }
}

impl Readable for () {
    open spec fn read_defined(bytes: Seq<u8>) -> bool {
        true
    }

    open spec fn spec_read(bytes: Seq<u8>) -> Option<((), nat)> {
        Some(((), 0))
    }

    proof fn lemma_read_bounded(bytes: Seq<u8>) {
    }

    fn read(buffer: &mut Cursor, version: ProtocolVersion) -> (r: Result<(), Error>) {
        Ok(())
    }
}

impl Writeable for () {
    open spec fn write_defined(v: ()) -> bool {
        true
    }

    open spec fn spec_write(v: ()) -> Option<Seq<u8>> {
        Some(seq![])
    }

    fn write(&self, buffer: &mut Vec<u8>, version: ProtocolVersion) -> (r: Result<(), Error>) {
        assert(buffer@ =~= old(buffer)@ + seq![]);
        Ok(())
    }
}

impl WireFormat for () {
    open spec fn round_trips(v: ()) -> bool {
        true
    }

    proof fn lemma_round_trip(v: (), extra: Seq<u8>) {
        assert(seq![] + extra =~= extra);
    }
}

} // verus!

verus! {

impl<'a, T: Writeable> Writeable for &'a T {
    open spec fn write_defined(v: T::V) -> bool {
        T::write_defined(v)
    }

    open spec fn spec_write(v: T::V) -> Option<Seq<u8>> {
        T::spec_write(v)
    }

    fn write(&self, buffer: &mut Vec<u8>, version: ProtocolVersion) -> (r: Result<(), Error>) {
        T::write(*self, buffer, version)
    }
}


/// An item stack on the wire: an item id of -1 for no item, else the id,
/// the count and the damage.
#[derive(Clone, Copy, Debug, PartialEq, Eq)]
pub struct Slot(pub Option<(i16, i8, i16)>);

impl DeepView for Slot {
    type V = Option<(i16, i8, i16)>;

    open spec fn deep_view(&self) -> Option<(i16, i8, i16)> {
        self.0
    }
}

impl Readable for Slot {
    open spec fn read_defined(bytes: Seq<u8>) -> bool {
        true
    }

    open spec fn spec_read(bytes: Seq<u8>) -> Option<(Option<(i16, i8, i16)>, nat)> {
        match i16::spec_read(bytes) {
            None => None,
            Some((id, n)) => if id == -1 {
                Some((None, n))
            } else {
                match <(i8, (i16, ()))>::spec_read(bytes.skip(n as int)) {
                    Some(((count, (damage, _)), m)) => Some((Some((id, count, damage)), n + m)),
                    None => None,
                }
            },
        }
    }

    proof fn lemma_read_bounded(bytes: Seq<u8>) {
        if let Some((id, n)) = i16::spec_read(bytes) {
            <(i8, (i16, ()))>::lemma_read_bounded(bytes.skip(n as int));
        }
    }

    fn read(buffer: &mut Cursor, version: ProtocolVersion) -> (r: Result<Slot, Error>) {
        buffer.note_in_bounds();
        let ghost before = *buffer;
        let id = i16::read(buffer, version)?;
        proof {
            Cursor::lemma_advance(before, *buffer, 2);
        }
        if id == -1 {
            return Ok(Slot(None));
        }
        let (count, (damage, ())) = <(i8, (i16, ()))>::read(buffer, version)?;
        Ok(Slot(Some((id, count, damage))))
    }
}

impl Writeable for Slot {
    open spec fn write_defined(v: Option<(i16, i8, i16)>) -> bool {
        true
    }

    /// `-1` for no item, else the id, count and damage.
    open spec fn spec_write(v: Option<(i16, i8, i16)>) -> Option<Seq<u8>> {
        match v {
            None => i16::spec_write(-1i16),
            Some((id, count, damage)) => Some(i16::spec_write(id)->0 + i8::spec_write(count)->0
                + i16::spec_write(damage)->0),
        }
    }

    fn write(&self, buffer: &mut Vec<u8>, version: ProtocolVersion) -> (r: Result<(), Error>) {
        match self.0 {
            None => (-1i16).write(buffer, version),
            Some((id, count, damage)) => {
                let ghost b0 = buffer@;
                id.write(buffer, version)?;
                count.write(buffer, version)?;
                damage.write(buffer, version)?;
                assert(buffer@ =~= b0 + (i16::spec_write(id)->0 + i8::spec_write(count)->0
                    + i16::spec_write(damage)->0));
                Ok(())
            },
        }
    }
}

impl WireFormat for Slot {
    /// A stack whose item id is -1 reads back as no item.
    open spec fn round_trips(v: Option<(i16, i8, i16)>) -> bool {
        v matches Some((id, _, _)) ==> id != -1
    }

    proof fn lemma_round_trip(v: Option<(i16, i8, i16)>, extra: Seq<u8>) {
        match v {
            None => {
                i16::lemma_round_trip(-1i16, extra);
            },
            Some((id, count, damage)) => {
                let a = i16::spec_write(id)->0;
                let b = i8::spec_write(count)->0;
                let c = i16::spec_write(damage)->0;
                i16::lemma_round_trip(id, b + c + extra);
                assert(a + b + c + extra == a + (b + c + extra));
                <(i8, (i16, ()))>::lemma_round_trip((count, (damage, ())), extra);
                assert(<(i8, (i16, ()))>::spec_write((count, (damage, ())))->0 =~= b + c);
                assert((a + b + c + extra).skip(2) =~= b + c + extra);
            },
        }
    }
}

} // verus!
