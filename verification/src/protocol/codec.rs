//! Framing of packets over a byte stream.
use vstd::prelude::*;

use bytes::BytesMut;

use super::cursor::Cursor;
use super::io::{Error, ProtocolVersion, Readable, Writeable};

verus! {

#[verifier::external_type_specification]
#[verifier::external_body]
pub struct ExBytesMut(BytesMut);

/// The bytes that a `BytesMut` holds.
pub uninterp spec fn bytes_mut_contents(b: BytesMut) -> Seq<u8>;

/// `BytesMut::new`: an empty buffer.
#[verifier::external_body]
fn bytes_mut_new() -> (r: BytesMut)
    ensures
        bytes_mut_contents(r) == Seq::<u8>::empty(),
{
    BytesMut::new()
}

/// `BytesMut::extend` with a slice of bytes: appends them.
#[verifier::external_body]
fn bytes_mut_extend(b: &mut BytesMut, bytes: &[u8])
    requires
        bytes_mut_contents(*old(b)).len() + bytes@.len() <= isize::MAX,
    ensures
        bytes_mut_contents(*final(b)) == bytes_mut_contents(*old(b)) + bytes@,
{
    b.extend(bytes)
}

/// `&b[..]`: the bytes of the buffer as a slice.
#[verifier::external_body]
fn bytes_mut_as_slice(b: &BytesMut) -> (r: &[u8])
    ensures
        r@ == bytes_mut_contents(*b),
{
    &b[..]
}

/// `BytesMut::split_off`: keeps the first `at` bytes and returns the rest.
#[verifier::external_body]
fn bytes_mut_split_off(b: &mut BytesMut, at: usize) -> (r: BytesMut)
    requires
        at <= bytes_mut_contents(*old(b)).len(),
    ensures
        bytes_mut_contents(*final(b)) == bytes_mut_contents(*old(b)).take(at as int),
        bytes_mut_contents(r) == bytes_mut_contents(*old(b)).skip(at as int),
{
    b.split_off(at)
}

/// State to serialize and deserialize packets from a byte stream.
pub struct MinecraftCodec {
    /// A buffer of received bytes.
    received_buf: BytesMut,
    /// Auxiliary buffer.
    staging_buf: Vec<u8>,
    /// Another auxiliary buffer.
    compression_target: Vec<u8>,
}

impl MinecraftCodec {
    /// The bytes received and not yet taken as packets.
    pub closed spec fn received(&self) -> Seq<u8> {
        bytes_mut_contents(self.received_buf)
    }

    /// The bytes of a packet being encoded.
    pub closed spec fn staged(&self) -> Seq<u8> {
        self.staging_buf@
    }

    pub fn new() -> (r: Self)
        ensures
            r.received() == Seq::<u8>::empty(),
            r.staged() == Seq::<u8>::empty(),
    {
        MinecraftCodec {
            received_buf: bytes_mut_new(),
            staging_buf: Vec::new(),
            compression_target: Vec::new(),
        }
    }

    /// Gets another `MinecraftCodec` with the same compression and encryption
    /// parameters.
    pub fn clone_with_settings(&self) -> (r: MinecraftCodec)
        ensures
            r.received() == Seq::<u8>::empty(),
            r.staged() == Seq::<u8>::empty(),
    {
        MinecraftCodec {
            received_buf: bytes_mut_new(),
            staging_buf: Vec::new(),
            compression_target: Vec::new(),
        }
    }

    /// Writes a packet into the provided output.
    pub fn encode<P: Writeable>(&mut self, packet: &P, output: &mut Vec<u8>) -> (r: Result<(), Error>)
        requires
            P::write_defined(packet.deep_view()),
        ensures
            final(self).received() == old(self).received(),
            match P::spec_write(packet.deep_view()) {
                Some(b) => r is Ok && final(output)@ == old(output)@ + old(self).staged() + b
                    && final(self).staged() == Seq::<u8>::empty(),
                None => r is Err && final(output)@ == old(output)@,
            },
    {
        packet.write(&mut self.staging_buf, ProtocolVersion::Vb1_8_1)?;
        self.encode_uncompressed(output)?;
        self.staging_buf.clear();
        Ok(())
    }

    fn data_uncompressed(&mut self) -> (r: (usize, &[u8]))
        ensures
            r.0 == 0,
            r.1@ == old(self).staged(),
            *final(self) == *old(self),
    {
        (0, self.staging_buf.as_slice())
    }

    fn encode_uncompressed(&mut self, output: &mut Vec<u8>) -> (r: Result<(), Error>)
        ensures
            r is Ok,
            final(output)@ == old(output)@ + old(self).staged(),
            *final(self) == *old(self),
    {
        output.extend_from_slice(self.staging_buf.as_slice());
        Ok(())
    }

    /// Accepts newly received bytes.
    pub fn accept(&mut self, bytes: &[u8])
        requires
            old(self).received().len() + bytes@.len() <= isize::MAX,
        ensures
            final(self).received() == old(self).received() + bytes@,
            final(self).staged() == old(self).staged(),
    {
        bytes_mut_extend(&mut self.received_buf, bytes);
    }

    /// Gets the next packet that was received, if any.
    ///
    /// A packet that does not decode yet stays buffered: more bytes may
    /// complete it.
    pub fn next_packet<T: Readable>(&mut self) -> (r: Result<Option<T>, Error>)
        requires
            T::read_defined(old(self).received()),
        ensures
            final(self).staged() == old(self).staged(),
            match T::spec_read(old(self).received()) {
                Some((v, n)) => r matches Ok(Some(p)) && p.deep_view() == v
                    && final(self).received() == old(self).received().skip(n as int),
                None => r matches Ok(None) && final(self).received() == old(self).received(),
            },
    {
        let data = bytes_mut_as_slice(&self.received_buf);
        let mut cursor = Cursor::new(data);
        let start = cursor.position_usize();
        let packet = T::read(&mut cursor, ProtocolVersion::Vb1_8_1);
        let packet = match packet {
            Ok(p) => p,
            Err(_) => {
                return Ok(None);
            },
        };
        let end = cursor.position_usize();
        let bytes_read = end - start;
        proof {
            T::lemma_read_bounded(data@);
        }
        self.received_buf = bytes_mut_split_off(&mut self.received_buf, bytes_read);
        Ok(Some(packet))
    }
}

} // verus!

verus! {

/// A packet that one side encodes is what the other side's codec hands
/// out, and the bytes that followed it stay buffered for the next packet.
pub proof fn law_next_packet_gives_back_encoded<T: super::io::WireFormat>(v: T::V, rest: Seq<u8>)
    requires
        T::round_trips(v),
        T::write_defined(v),
        T::spec_write(v) is Some,
    ensures
        ({
            let b = T::spec_write(v)->0;
            &&& T::read_defined(b + rest)
            &&& T::spec_read(b + rest) == Some((v, b.len()))
            &&& (b + rest).skip(b.len() as int) == rest
        }),
{
    let b = T::spec_write(v)->0;
    T::lemma_round_trip(v, rest);
    assert((b + rest).skip(b.len() as int) =~= rest);
}

} // verus!
