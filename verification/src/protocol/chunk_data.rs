//! The chunk data packet and the nibble packing of its light and metadata arrays.
use vstd::prelude::*;

use std::io::Write;

use super::io::{be16, be32, Error, ProtocolVersion, Writeable};
use crate::world::{BlockState, Chunk, ChunkSection};

verus! {

/// Why chunk data could not be encoded.
#[derive(Debug)]
pub enum ChunkDataError {
    /// A nibble array value above 15.
    OutOfRange,
    /// An empty array cannot be packed into nibbles.
    BadLength,
    /// The compressor failed.
    Compression,
    /// Writing a field failed.
    Io(Error),
}

#[derive(Debug)]
pub enum ChunkDataKind {
    /// Load a chunk on the client. Sends all sections.
    LoadChunk,
    /// Overwrite an existing chunk on the client. Sends
    /// only the sections in `sections`.
    OverwriteChunk { sections: Vec<usize> },
}

/// Packet to load a chunk on the client.
pub struct ChunkData {
    /// The chunk to send.
    pub chunk: Chunk,
    /// Whether this packet will load a chunk on
    /// the client or overwrite an existing one.
    pub kind: ChunkDataKind,
}

/// Two values of at most 15 packed into one byte, the first in the low half.
pub open spec fn spec_nibble_byte(a: u8, b: u8) -> u8 {
    a | (b << 4u8)
}

/// The two halves of a byte, low half first.
pub open spec fn spec_decompress_nibble(input: u8) -> (u8, u8) {
    (input & 0x0Fu8, input >> 4u8)
}

fn make_nibble_byte(a: u8, b: u8) -> (r: Result<u8, ChunkDataError>)
    ensures
        (a > 15 || b > 15) ==> r is Err,
        (a <= 15 && b <= 15) ==> (r matches Ok(x) && x == spec_nibble_byte(a, b)),
{
    if a > 15 || b > 15 {
        return Err(ChunkDataError::OutOfRange);
    }
    let ghost a0 = a;
    let ghost b0 = b;
    let mut a = a;
    let mut b = b;
    b = b << 4u8;
    b = b & 0b11110000u8;
    a = a & 0b00001111u8;
    assert((a0 & 0x0Fu8) | ((b0 << 4u8) & 0xF0u8) == a0 | (b0 << 4u8)) by (bit_vector)
        requires
            a0 <= 15,
            b0 <= 15,
    ;
    Ok(a | b)
}

fn decompress_nibble(input: u8) -> (r: (u8, u8))
    ensures
        r == spec_decompress_nibble(input),
{
    let b = input & 0b11110000u8;
    let b = b >> 4u8;
    let a = input & 0b00001111u8;
    assert((input & 0xF0u8) >> 4u8 == input >> 4u8) by (bit_vector);
    (a, b)
}

/// The values of a nibble array: each byte gives its low half, then its high half.
pub open spec fn spec_decompress(input: Seq<u8>) -> Seq<u8> {
    Seq::new(
        2 * input.len(),
        |j: int|
            if j % 2 == 0 {
                spec_decompress_nibble(input[j / 2]).0
            } else {
                spec_decompress_nibble(input[j / 2]).1
            },
    )
}

/// Unpacks a nibble array; `None` for an empty one.
pub fn decompress_vec(input: Vec<u8>) -> (r: Option<Vec<u8>>)
    ensures
        input@.len() == 0 ==> r is None,
        input@.len() > 0 ==> (r matches Some(v) && v@ == spec_decompress(input@)),
{
    let mut output: Vec<u8> = Vec::new();
    if input.len() <= 0 {
        return None;
    }
    let mut i: usize = 0;
    while i < input.len()
        invariant
            i <= input@.len(),
            output@ =~= spec_decompress(input@.take(i as int)),
        decreases input@.len() - i,
    {
        let decompressed = decompress_nibble(input[i]);
        output.push(decompressed.0);
        output.push(decompressed.1);
        proof {
            let t = input@.take(i as int + 1);
            assert forall|j: int| 0 <= j < 2 * i implies spec_decompress(t)[j] == spec_decompress(
                input@.take(i as int),
            )[j] by {
                assert(t[j / 2] == input@[j / 2]);
            }
        }
        i = i + 1;
    }
    assert(input@.take(i as int) =~= input@);
    Some(output)
}

/// Whether every value of the pairs that get packed is at most 15; an
/// unpaired last value is copied as it is.
pub open spec fn packable(input: Seq<u8>) -> bool {
    forall|i: int| 0 <= i < 2 * (input.len() / 2) ==> #[trigger] input[i] <= 15
}

/// The packed form of a nibble array: a byte per pair of values, then an
/// unpaired last value as it is.
pub open spec fn spec_compress(input: Seq<u8>) -> Seq<u8> {
    Seq::new(
        input.len() / 2,
        |i: int| spec_nibble_byte(input[2 * i], input[2 * i + 1]),
    ) + if input.len() % 2 == 1 {
        seq![input.last()]
    } else {
        seq![]
    }
}

/// Packs a nibble array. Fails on an empty array or on a value above 15 in a pair.
pub fn compress_to_nibble(input: Vec<u8>) -> (r: Result<Vec<u8>, ChunkDataError>)
    ensures
        (input@.len() == 0 || !packable(input@)) ==> r is Err,
        (input@.len() > 0 && packable(input@)) ==> (r matches Ok(v) && v@ == spec_compress(input@)),
{
    let mut output: Vec<u8> = Vec::new();
    if input.len() <= 0 {
        return Err(ChunkDataError::BadLength);
    }
    let mut i: usize = 0;
    while i < input.len() - 1
        invariant
            input@.len() > 0,
            i % 2 == 0,
            i <= input@.len(),
            forall|k: int| 0 <= k < i ==> #[trigger] input@[k] <= 15,
            output@ =~= Seq::new(
                (i / 2) as nat,
                |k: int| spec_nibble_byte(input@[2 * k], input@[2 * k + 1]),
            ),
        decreases input@.len() - i,
    {
        let b = match make_nibble_byte(input[i], input[i + 1]) {
            Ok(b) => b,
            Err(e) => {
                proof {
                    if input@[i as int] > 15 {
                        assert(!packable(input@) || input@[i as int] <= 15);
                    }
                    assert(i + 1 < 2 * (input@.len() / 2));
                    assert(!(input@[i as int] <= 15 && input@[i as int + 1] <= 15));
                }
                return Err(e);
            },
        };
        output.push(b);
        i = i + 2;
    }
    if input.len() % 2 == 1 {
        output.push(input[input.len() - 1]);
    }
    proof {
        assert(2 * (input@.len() / 2) <= i);
        assert(i / 2 == input@.len() / 2);
    }
    assert(output@ =~= spec_compress(input@));
    Ok(output)
}

} // verus!

verus! {

proof fn lemma_nibble_byte_halves(a: u8, b: u8)
    requires
        a <= 15,
        b <= 15,
    ensures
        spec_decompress_nibble(spec_nibble_byte(a, b)) == (a, b),
{
    assert((a | (b << 4u8)) & 0x0Fu8 == a) by (bit_vector)
        requires
            a <= 15,
            b <= 15,
    ;
    assert((a | (b << 4u8)) >> 4u8 == b) by (bit_vector)
        requires
            a <= 15,
            b <= 15,
    ;
}

/// Unpacking a packed array of an even number of values at most 15 gives
/// the values back.
pub proof fn law_decompress_compress(values: Seq<u8>)
    requires
        values.len() % 2 == 0,
        forall|i: int| 0 <= i < values.len() ==> #[trigger] values[i] <= 15,
    ensures
        spec_decompress(spec_compress(values)) == values,
{
    let packed = spec_compress(values);
    assert(packed.len() == values.len() / 2);
    assert forall|j: int| 0 <= j < values.len() implies #[trigger] spec_decompress(packed)[j]
        == values[j] by {
        let k = j / 2;
        lemma_nibble_byte_halves(values[2 * k], values[2 * k + 1]);
    }
    assert(spec_decompress(packed) =~= values);
}

/// Packing what was unpacked gives the packed bytes back.
pub proof fn law_compress_decompress(packed: Seq<u8>)
    ensures
        packable(spec_decompress(packed)),
        spec_compress(spec_decompress(packed)) == packed,
{
    let values = spec_decompress(packed);
    assert forall|i: int| 0 <= i < values.len() implies #[trigger] values[i] <= 15 by {
        let x = packed[i / 2];
        assert(x & 0x0Fu8 <= 15) by (bit_vector);
        assert(x >> 4u8 <= 15) by (bit_vector);
    }
    assert forall|k: int| 0 <= k < packed.len() implies #[trigger] spec_compress(values)[k]
        == packed[k] by {
        let x = packed[k];
        assert(values[2 * k] == x & 0x0Fu8);
        assert(values[2 * k + 1] == x >> 4u8);
        assert((x & 0x0Fu8) | ((x >> 4u8) << 4u8) == x) by (bit_vector);
    }
    assert(spec_compress(values) =~= packed);
}

} // verus!

verus! {

/// The zlib stream that flate2 produces at `Compression::fast()` for `data`.
pub uninterp spec fn zlib_fast(data: Seq<u8>) -> Seq<u8>;

/// `flate2::write::ZlibEncoder` at `Compression::fast()` over a `Vec`, fed all
/// of `data` and finished: the zlib stream `zlib_fast(data)`. A fresh stream
/// that writes into a `Vec` meets none of the encoder's error cases, so this
/// always succeeds; an error would become `Compression`.
#[verifier::external_body]
fn zlib_compress_fast(data: &[u8]) -> (r: Result<Vec<u8>, ChunkDataError>)
    ensures
        r is Ok,
        r matches Ok(v) ==> v@ == zlib_fast(data@),
{
    let mut encoder = flate2::write::ZlibEncoder::new(Vec::new(), flate2::Compression::fast());
    match encoder.write_all(data) {
        Ok(()) => {},
        Err(_) => return Err(ChunkDataError::Compression),
    }
    encoder.finish().map_err(|_| ChunkDataError::Compression)
}

/// The blocks of a section, if the chunk has that section.
pub open spec fn section_blocks(chunk: &Chunk, y: int) -> Option<Seq<BlockState>> {
    match chunk.sections@[y] {
        Some(s) => Some(s.blocks@),
        None => None,
    }
}

/// Whether a packet of this kind leaves out section `y`.
pub open spec fn spec_should_skip(kind: ChunkDataKind, y: usize) -> bool {
    match kind {
        ChunkDataKind::LoadChunk => false,
        ChunkDataKind::OverwriteChunk { sections } => !sections@.contains(y),
    }
}

/// The section's block types, then its metadata, block light and sky light
/// packed into nibbles; `None` when a packing fails.
pub open spec fn spec_section_payload(blocks: Seq<BlockState>) -> Option<Seq<u8>> {
    let types = blocks.map_values(|b: BlockState| b.b_type);
    let meta = blocks.map_values(|b: BlockState| b.b_metadata);
    let light = blocks.map_values(|b: BlockState| b.b_light);
    let sky = blocks.map_values(|b: BlockState| b.b_skylight);
    if blocks.len() == 0 || !packable(meta) || !packable(light) || !packable(sky) {
        None
    } else {
        Some(types + spec_compress(meta) + spec_compress(light) + spec_compress(sky))
    }
}

/// The fields before a section's compressed data: chunk x, section index,
/// chunk z, the three size bytes and the compressed length.
pub open spec fn spec_section_header(x: i32, y: usize, z: i32, len: usize) -> Seq<u8> {
    be32(x as u32) + be16(((y as i16) as u16)) + be32(z as u32) + seq![15u8, 15u8, 15u8] + be32(
        ((len as i32) as u32),
    )
}

/// The chunk data packet id, written between two sections.
pub open spec fn spec_separator(wrote: bool) -> Seq<u8> {
    if wrote {
        seq![0x33u8]
    } else {
        seq![]
    }
}

/// What writing the first `n` sections appends to the buffer, whether a
/// section was written among them, and whether one failed to pack. Writing
/// stops at a section that fails to pack, after the packet id that precedes
/// it.
pub open spec fn spec_sections_upto(data: &ChunkData, n: nat) -> (Seq<u8>, bool, bool)
    decreases n,
{
    if n == 0 {
        (seq![], false, false)
    } else {
        let (prev, wrote, failed) = spec_sections_upto(data, (n - 1) as nat);
        let y = n - 1;
        if failed {
            (prev, wrote, true)
        } else if !sends_section(data, y) {
            (prev, wrote, false)
        } else {
            match spec_section_payload(section_blocks(&data.chunk, y)->0) {
                None => (prev + spec_separator(wrote), wrote, true),
                Some(p) => {
                    let c = zlib_fast(p);
                    (
                        prev + spec_separator(wrote) + spec_section_header(
                            data.chunk.position.x,
                            y as usize,
                            data.chunk.position.z,
                            c.len() as usize,
                        ) + c,
                        true,
                        false,
                    )
                },
            }
        }
    }
}

/// Whether section `y` goes out compressed: the chunk has it and the
/// packet does not leave it out.
pub open spec fn sends_section(data: &ChunkData, y: int) -> bool {
    section_blocks(&data.chunk, y) is Some && !spec_should_skip(data.kind, y as usize)
}

/// At most the first eight sections are sent.
pub open spec fn sections_sent(data: &ChunkData) -> nat {
    if data.chunk.sections@.len() < 8 {
        data.chunk.sections@.len()
    } else {
        8
    }
}

/// Packs one array of a section into nibbles.
fn section_array(blocks: &Vec<BlockState>, which: u8) -> (r: Vec<u8>)
    requires
        which < 3,
    ensures
        which == 0 ==> r@ == blocks@.map_values(|b: BlockState| b.b_metadata),
        which == 1 ==> r@ == blocks@.map_values(|b: BlockState| b.b_light),
        which == 2 ==> r@ == blocks@.map_values(|b: BlockState| b.b_skylight),
{
    let mut out: Vec<u8> = Vec::new();
    let mut i: usize = 0;
    while i < blocks.len()
        invariant
            which < 3,
            i <= blocks@.len(),
            which == 0 ==> out@ =~= blocks@.take(i as int).map_values(|b: BlockState| b.b_metadata),
            which == 1 ==> out@ =~= blocks@.take(i as int).map_values(|b: BlockState| b.b_light),
            which == 2 ==> out@ =~= blocks@.take(i as int).map_values(|b: BlockState| b.b_skylight),
        decreases blocks@.len() - i,
    {
        let b = blocks[i];
        if which == 0 {
            out.push(b.b_metadata);
        } else if which == 1 {
            out.push(b.b_light);
        } else {
            out.push(b.b_skylight);
        }
        i = i + 1;
    }
    assert(blocks@.take(i as int) =~= blocks@);
    out
}

/// The uncompressed data of one section.
pub fn section_payload(section: &ChunkSection) -> (r: Result<Vec<u8>, ChunkDataError>)
    ensures
        spec_section_payload(section.blocks@) is None ==> r is Err,
        spec_section_payload(section.blocks@) matches Some(p) ==> (r matches Ok(v) && v@ == p),
{
    let blocks = section.data();
    let mut blockdata: Vec<u8> = Vec::new();
    let mut i: usize = 0;
    while i < blocks.len()
        invariant
            i <= blocks@.len(),
            blockdata@ =~= blocks@.take(i as int).map_values(|b: BlockState| b.b_type),
        decreases blocks@.len() - i,
    {
        blockdata.push(blocks[i].b_type);
        i = i + 1;
    }
    assert(blocks@.take(i as int) =~= blocks@);
    let metadata = section_array(blocks, 0);
    let blocklight = section_array(blocks, 1);
    let skylight = section_array(blocks, 2);
    let mut m = compress_to_nibble(metadata)?;
    let mut l = compress_to_nibble(blocklight)?;
    let mut s = compress_to_nibble(skylight)?;
    blockdata.append(&mut m);
    blockdata.append(&mut l);
    blockdata.append(&mut s);
    Ok(blockdata)
}

/// Writes one section packet from its compressed data: the packet id if a
/// section came before, the header, then the data.
pub fn write_section_packet(
    buffer: &mut Vec<u8>,
    x: i32,
    y: usize,
    z: i32,
    compressed: &[u8],
    after_another: bool,
) -> (r: Result<(), Error>)
    ensures
        r is Ok,
        final(buffer)@ == old(buffer)@ + spec_separator(after_another) + spec_section_header(
            x,
            y,
            z,
            compressed@.len() as usize,
        ) + compressed@,
{
    let version = ProtocolVersion::Vb1_8_1;
    if after_another {
        0x33i8.write(buffer, version)?;
    }
    x.write(buffer, version)?;
    (#[verifier::truncate] (y as i16)).write(buffer, version)?;
    z.write(buffer, version)?;
    15i8.write(buffer, version)?;
    15i8.write(buffer, version)?;
    15i8.write(buffer, version)?;
    (#[verifier::truncate] (compressed.len() as i32)).write(buffer, version)?;
    buffer.extend_from_slice(compressed);
    assert(buffer@ =~= old(buffer)@ + spec_separator(after_another) + spec_section_header(
        x,
        y,
        z,
        compressed@.len() as usize,
    ) + compressed@);
    Ok(())
}

impl ChunkData {
    fn should_skip_section(&self, y: usize) -> (r: bool)
        ensures
            r == spec_should_skip(self.kind, y),
    {
        match &self.kind {
            ChunkDataKind::LoadChunk => false,
            ChunkDataKind::OverwriteChunk { sections } => {
                let mut i: usize = 0;
                assert(spec_should_skip(self.kind, y) == !sections@.contains(y));
                while i < sections.len()
                    invariant
                        spec_should_skip(self.kind, y) == !sections@.contains(y),
                        i <= sections@.len(),
                        forall|k: int| 0 <= k < i ==> sections@[k] != y,
                    decreases sections@.len() - i,
                {
                    if sections[i] == y {
                        assert(sections@[i as int] == y);
                        assert(sections@.contains(y));
                        assert(!spec_should_skip(self.kind, y));
                        return false;
                    }
                    i = i + 1;
                }
                true
            },
        }
    }

    /// Writes a chunk data packet for every section that is present and not
    /// left out, among the first eight. Fails when a section's nibble arrays
    /// cannot be packed.
    pub fn write(&self, buffer: &mut Vec<u8>, version: ProtocolVersion) -> (r: Result<(), ChunkDataError>)
        ensures
            final(buffer)@ == old(buffer)@ + spec_sections_upto(self, sections_sent(self)).0,
            r is Ok <==> !spec_sections_upto(self, sections_sent(self)).2,
    {
        let chunk = &self.chunk;
        let sections = chunk.sections();
        let count = if sections.len() < 8 {
            sections.len()
        } else {
            8
        };
        let mut first = true;
        let mut y: usize = 0;
        while y < count
            invariant
                y <= count,
                count == sections_sent(self),
                chunk == &self.chunk,
                sections == &self.chunk.sections,
                buffer@ == old(buffer)@ + spec_sections_upto(self, y as nat).0,
                !spec_sections_upto(self, y as nat).2,
                first == !spec_sections_upto(self, y as nat).1,
            decreases count - y,
        {
            let ghost prev = spec_sections_upto(self, y as nat);
            match &sections[y] {
                Some(section) => {
                    assert(section_blocks(&self.chunk, y as int) == Some(section.blocks@));
                    if !self.should_skip_section(y) {
                        assert(sends_section(self, y as int));
                        if !first {
                            buffer.push(0x33u8);
                        }
                        assert(buffer@ =~= old(buffer)@ + (prev.0 + spec_separator(prev.1)));
                        let payload = match section_payload(section) {
                            Ok(p) => p,
                            Err(e) => {
                                proof {
                                    lemma_sections_failed_stays(self, (y + 1) as nat, count as nat);
                                }
                                return Err(e);
                            },
                        };
                        let compressed = match zlib_compress_fast(payload.as_slice()) {
                            Ok(c) => c,
                            Err(e) => {
                                return Err(e);
                            },
                        };
                        match write_section_packet(
                            buffer,
                            chunk.position().x,
                            y,
                            chunk.position().z,
                            compressed.as_slice(),
                            false,
                        ) {
                            Ok(()) => {},
                            Err(e) => {
                                return Err(ChunkDataError::Io(e));
                            },
                        }
                        assert(buffer@ =~= old(buffer)@ + (prev.0 + spec_separator(prev.1)
                            + spec_section_header(
                            self.chunk.position.x,
                            y,
                            self.chunk.position.z,
                            compressed@.len() as usize,
                        ) + compressed@));
                        first = false;
                    }
                },
                None => {},
            }
            y = y + 1;
        }
        Ok(())
    }
}

proof fn lemma_sections_failed_stays(data: &ChunkData, i: nat, n: nat)
    requires
        i <= n,
        spec_sections_upto(data, i).2,
    ensures
        spec_sections_upto(data, n) == spec_sections_upto(data, i),
    decreases n - i,
{
    if i < n {
        lemma_sections_failed_stays(data, i, (n - 1) as nat);
    }
}

} // verus!
