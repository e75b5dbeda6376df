use exopteron::game::BlockPosition;
use exopteron::protocol::chunk_data::{
    compress_to_nibble, decompress_vec, ChunkData, ChunkDataError, ChunkDataKind,
};
use exopteron::protocol::client::{
    ChatMessage, ClientHandshakePacket, Handshake, KeepAlive, PlayerBlockPlacement, ServerListPing,
};
use exopteron::protocol::codec::MinecraftCodec;
use exopteron::protocol::cursor::Cursor;
use exopteron::protocol::io::{
    Error, LengthInferredVecU8, LengthPrefixedVec, PingData, ShortPrefixedVec, Slot, ProtocolVersion, Readable, String16,
    Writeable,
};
use exopteron::protocol::packets::{DiggingStatus, Face, SoundEffectKind, VariantOf};
use exopteron::world::{BlockState, Chunk, ChunkCoords, ChunkSection};

const V: ProtocolVersion = ProtocolVersion::Vb1_8_1;

fn bytes_of<T: Writeable>(v: &T) -> Vec<u8> {
    let mut out = Vec::new();
    v.write(&mut out, V).unwrap();
    out
}

fn read_all<T: Readable>(bytes: &[u8]) -> Result<T, Error> {
    let mut c = Cursor::new(bytes);
    T::read(&mut c, V)
}

#[test]
fn integers_are_big_endian() {
    assert_eq!(bytes_of(&0x1234u16), vec![0x12, 0x34]);
    assert_eq!(bytes_of(&-2i8), vec![0xFE]);
    assert_eq!(bytes_of(&-2i16), vec![0xFF, 0xFE]);
    assert_eq!(bytes_of(&0x01020304i32), vec![1, 2, 3, 4]);
    assert_eq!(bytes_of(&0x0102030405060708u64), vec![1, 2, 3, 4, 5, 6, 7, 8]);
    assert_eq!(read_all::<i32>(&[0xFF, 0xFF, 0xFF, 0xFE]).unwrap(), -2);
    assert_eq!(read_all::<u64>(&[0, 0, 0, 0, 0, 0, 1, 0]).unwrap(), 256);
    assert_eq!(read_all::<i64>(&bytes_of(&i64::MIN)).unwrap(), i64::MIN);
}

#[test]
fn short_input_is_an_error() {
    assert!(matches!(read_all::<i32>(&[1, 2, 3]), Err(Error::UnexpectedEof(_))));
    assert!(matches!(read_all::<u8>(&[]), Err(Error::UnexpectedEof(_))));
}

#[test]
fn booleans() {
    assert_eq!(bytes_of(&true), vec![1]);
    assert_eq!(bytes_of(&false), vec![0]);
    assert!(read_all::<bool>(&[1]).unwrap());
    assert!(matches!(read_all::<bool>(&[2]), Err(Error::InvalidBool(2))));
}

#[test]
fn options_have_a_presence_flag() {
    assert_eq!(bytes_of(&Some(7u8)), vec![1, 7]);
    assert_eq!(bytes_of(&None::<u8>), vec![0]);
    assert_eq!(read_all::<Option<u8>>(&[1, 9]).unwrap(), Some(9));
    assert_eq!(read_all::<Option<u8>>(&[0, 9]).unwrap(), None);
}

#[test]
fn utf8_strings() {
    let s = String::from("hi");
    assert_eq!(bytes_of(&s), vec![0, 2, b'h', b'i']);
    assert_eq!(read_all::<String>(&[0, 2, b'h', b'i']).unwrap(), "hi");
    assert!(matches!(read_all::<String>(&[0, 1, 0xFF]), Err(Error::InvalidUtf8)));
    assert!(matches!(read_all::<String>(&[0, 3, b'a']), Err(Error::UnexpectedEof(_))));
}

#[test]
fn utf16_strings() {
    let s = String16(String::from("hi"));
    assert_eq!(bytes_of(&s), vec![0, 2, 0, b'h', 0, b'i']);
    assert_eq!(read_all::<String16>(&[0, 2, 0, b'h', 0, b'i']).unwrap().0, "hi");
    assert!(matches!(read_all::<String16>(&[0, 1, 0xD8, 0x00]), Err(Error::InvalidUtf16)));
}

#[test]
fn utf16_string_outside_the_basic_plane_does_not_read_back() {
    // The prefix counts characters, but the character takes two code units.
    let bytes = bytes_of(&String16(String::from("\u{1F600}")));
    assert_eq!(bytes, vec![0, 1, 0xD8, 0x3D, 0xDE, 0x00]);
    assert!(matches!(read_all::<String16>(&bytes), Err(Error::InvalidUtf16)));
}

#[test]
fn length_prefixed_vectors() {
    let v = ShortPrefixedVec::new(vec![1i16, -1]);
    assert_eq!(bytes_of(&v), vec![0, 2, 0, 1, 0xFF, 0xFF]);
    let back = read_all::<ShortPrefixedVec<i16>>(&[0, 2, 0, 1, 0xFF, 0xFF]).unwrap();
    assert_eq!(back.0, vec![1, -1]);
    assert!(matches!(read_all::<ShortPrefixedVec<i16>>(&[0, 2, 0, 1]), Err(Error::UnexpectedEof(_))));
}

#[test]
fn length_inferred_vector_takes_the_rest() {
    let v = read_all::<LengthInferredVecU8>(&[1, 2, 3]).unwrap();
    assert_eq!(v.0, vec![1, 2, 3]);
    assert_eq!(bytes_of(&LengthInferredVecU8(vec![4, 5])), vec![4, 5]);
}

#[test]
fn ping_reply_text() {
    let p = PingData::new(String::from("A"), 3, 20);
    // "A§3§20" as a String16.
    assert_eq!(
        bytes_of(&p),
        vec![0, 6, 0, b'A', 0, 0xA7, 0, b'3', 0, 0xA7, 0, b'2', 0, b'0']
    );
}

#[test]
fn pairs_and_unit() {
    assert_eq!(bytes_of(&(1u8, 2u16)), vec![1, 0, 2]);
    assert_eq!(read_all::<(u8, u16)>(&[1, 0, 2]).unwrap(), (1, 2));
    assert_eq!(bytes_of(&()), Vec::<u8>::new());
}

#[test]
fn enums_by_discriminant() {
    assert_eq!(SoundEffectKind::Extinguish.discriminant(), 1004);
    assert_eq!(SoundEffectKind::from_discriminant(2001), Some(SoundEffectKind::BlockBreak));
    assert_eq!(SoundEffectKind::from_discriminant(7), None);
    assert_eq!(bytes_of(&DiggingStatus::FinishedDigging), vec![2]);
    assert!(matches!(read_all::<Face>(&[9]), Err(Error::UnknownVariant(_))));
    assert_eq!(read_all::<Face>(&[5]).unwrap(), Face::PositiveX);
}

#[test]
fn faces() {
    assert_eq!(Face::NegativeY.reverse(), Face::PositiveY);
    assert_eq!(Face::Invalid.reverse(), Face::Invalid);
    for f in Face::all_faces() {
        assert_eq!(f.reverse().reverse(), f);
        let p = BlockPosition::new(1, 2, 3, 0);
        assert_eq!(f.reverse().offset(f.offset(p)), p);
    }
    assert_eq!(Face::all_faces().len(), 6);
    assert_eq!(Face::PositiveZ.offset(BlockPosition::new(1, 2, 3, 0)), BlockPosition::new(1, 2, 4, 0));
}

#[test]
fn handshake_packets_carry_their_id() {
    let p = ClientHandshakePacket::Handshake(Handshake { username: String16(String::from("a")) });
    assert_eq!(p.id(), 2);
    let bytes = bytes_of(&p);
    assert_eq!(bytes, vec![2, 0, 1, 0, b'a']);
    let back = read_all::<ClientHandshakePacket>(&bytes).unwrap();
    assert!(matches!(back, ClientHandshakePacket::Handshake(h) if h.username.0 == "a"));
    assert!(matches!(read_all::<ClientHandshakePacket>(&[0x42]), Err(_)));
}

#[test]
fn codec_gives_back_what_was_encoded() {
    let mut codec = MinecraftCodec::new();
    let mut out = Vec::new();
    codec.encode(&KeepAlive { id: 77 }, &mut out).unwrap();
    codec.encode(&ChatMessage { message: String16(String::from("yo")) }, &mut out).unwrap();
    assert_eq!(out[..4], [0, 0, 0, 77]);
    let mut receiver = codec.clone_with_settings();
    // Half a packet is not enough.
    receiver.accept(&out[..2]);
    assert!(receiver.next_packet::<KeepAlive>().unwrap().is_none());
    receiver.accept(&out[2..]);
    assert_eq!(receiver.next_packet::<KeepAlive>().unwrap().unwrap().id, 77);
    let chat = receiver.next_packet::<ChatMessage>().unwrap().unwrap();
    assert_eq!(chat.message.0, "yo");
    assert!(receiver.next_packet::<KeepAlive>().unwrap().is_none());
}

#[test]
fn nibbles() {
    assert_eq!(compress_to_nibble(vec![1, 2, 15, 0]).unwrap(), vec![0x21, 0x0F]);
    assert_eq!(compress_to_nibble(vec![1, 2, 9]).unwrap(), vec![0x21, 9]);
    assert!(matches!(compress_to_nibble(vec![16, 0]), Err(ChunkDataError::OutOfRange)));
    assert!(matches!(compress_to_nibble(vec![]), Err(ChunkDataError::BadLength)));
    assert_eq!(decompress_vec(vec![0x21, 0x0F]).unwrap(), vec![1, 2, 15, 0]);
    assert!(decompress_vec(vec![]).is_none());
    let v = vec![3, 4, 5, 6];
    assert_eq!(decompress_vec(compress_to_nibble(v.clone()).unwrap()).unwrap(), v);
}

fn section(n: usize) -> ChunkSection {
    ChunkSection { blocks: vec![BlockState::new(1, 2); n] }
}

#[test]
fn chunk_data_writes_each_sent_section() {
    let chunk = Chunk {
        position: ChunkCoords { x: 1, z: -1 },
        sections: vec![Some(section(4)), None, Some(section(4))],
    };
    let data = ChunkData { chunk, kind: ChunkDataKind::LoadChunk };
    let mut out = Vec::new();
    data.write(&mut out, V).unwrap();
    // x, section index 0, z, three sizes of 15.
    assert_eq!(out[..13], [0, 0, 0, 1, 0, 0, 0xFF, 0xFF, 0xFF, 0xFF, 15, 15, 15]);
    let len = i32::from_be_bytes([out[13], out[14], out[15], out[16]]) as usize;
    let compressed = &out[17..17 + len];
    let mut z = flate2::read::ZlibDecoder::new(compressed);
    let mut raw = Vec::new();
    std::io::Read::read_to_end(&mut z, &mut raw).unwrap();
    assert_eq!(raw, vec![1, 1, 1, 1, 0x22, 0x22, 0, 0, 0, 0]);
    // Then the packet id and the section at index 2.
    assert_eq!(out[17 + len], 0x33);
    assert_eq!(out[17 + len + 5..17 + len + 7], [0, 2]);
}

#[test]
fn chunk_data_overwrite_skips_unlisted_sections() {
    let chunk = Chunk { position: ChunkCoords { x: 0, z: 0 }, sections: vec![Some(section(2)), Some(section(2))] };
    let data = ChunkData { chunk, kind: ChunkDataKind::OverwriteChunk { sections: vec![1] } };
    let mut out = Vec::new();
    data.write(&mut out, V).unwrap();
    assert_eq!(out[4..6], [0, 1]);
    let none = ChunkData {
        chunk: Chunk { position: ChunkCoords { x: 0, z: 0 }, sections: vec![Some(section(2))] },
        kind: ChunkDataKind::OverwriteChunk { sections: vec![] },
    };
    let mut out = Vec::new();
    none.write(&mut out, V).unwrap();
    assert!(out.is_empty());
}

#[test]
fn chunk_data_fails_on_an_out_of_range_light() {
    let mut s = section(2);
    s.blocks[0].b_light = 16;
    let data = ChunkData {
        chunk: Chunk { position: ChunkCoords { x: 0, z: 0 }, sections: vec![Some(s)] },
        kind: ChunkDataKind::LoadChunk,
    };
    let mut out = Vec::new();
    assert!(matches!(data.write(&mut out, V), Err(ChunkDataError::OutOfRange)));
}

#[test]
fn handshake_packets_name_and_destructure_their_variant() {
    let hs = ClientHandshakePacket::Handshake(Handshake { username: String16("steve".to_owned()) });
    assert_eq!(hs.name(), "Handshake");
    assert_eq!(ClientHandshakePacket::ServerListPing(ServerListPing {}).name(), "ServerListPing");
    assert_eq!(<Handshake as VariantOf<ClientHandshakePacket>>::discriminant_id(), 2);
    assert_eq!(<ServerListPing as VariantOf<ClientHandshakePacket>>::discriminant_id(), 254);
    assert!(<ServerListPing as VariantOf<ClientHandshakePacket>>::destructure(
        ClientHandshakePacket::Handshake(Handshake { username: String16("a".to_owned()) })
    )
    .is_none());
    let back = <Handshake as VariantOf<ClientHandshakePacket>>::destructure(hs).unwrap();
    assert_eq!(back.username.0, "steve");
}

#[test]
fn chunk_data_failure_keeps_what_was_written_and_the_packet_id() {
    let mut bad = section(2);
    bad.blocks[1].b_skylight = 20;
    let data = ChunkData {
        chunk: Chunk { position: ChunkCoords { x: 0, z: 0 }, sections: vec![Some(section(2)), Some(bad)] },
        kind: ChunkDataKind::LoadChunk,
    };
    let mut out = Vec::new();
    assert!(matches!(data.write(&mut out, V), Err(ChunkDataError::OutOfRange)));
    let len = i32::from_be_bytes([out[13], out[14], out[15], out[16]]) as usize;
    assert_eq!(out.len(), 17 + len + 1);
    assert_eq!(out[17 + len], 0x33);
}

#[test]
fn faces_move_only_their_own_coordinate() {
    let top = BlockPosition::new(0, i32::MAX, 0, 0);
    assert_eq!(Face::PositiveX.offset(top), BlockPosition::new(1, i32::MAX, 0, 0));
    assert_eq!(Face::Invalid.offset(top), top);
}

#[test]
fn negative_string_lengths_are_errors() {
    let bytes = [0xFFu8, 0xFF, 0x00, 0x41];
    let mut cur = Cursor::new(&bytes);
    assert!(matches!(String16::read(&mut cur, V), Err(Error::NegativeLength(-1))));
    let mut cur = Cursor::new(&bytes);
    assert!(matches!(String::read(&mut cur, V), Err(Error::NegativeLength(-1))));
}

#[test]
fn wider_prefixes_and_the_length_limit() {
    let v = LengthPrefixedVec::<u32, u8>::new(vec![7, 8]);
    assert_eq!(bytes_of(&v), vec![0, 0, 0, 2, 7, 8]);
    let bytes = [0x00u8, 0x10, 0x00, 0x01];
    let mut cur = Cursor::new(&bytes);
    assert!(matches!(
        LengthPrefixedVec::<u32, u8>::read(&mut cur, V),
        Err(Error::ArrayTooLong(1048577))
    ));
    assert_eq!(cur.position_usize(), 4);
    assert!(matches!(
        read_all::<LengthPrefixedVec<i32, u8>>(&[0xFF, 0xFF, 0xFF, 0xFF]),
        Err(Error::InvalidPrefix)
    ));
    let back = read_all::<LengthPrefixedVec<i32, u8>>(&[0, 0, 0, 1, 9]).unwrap();
    assert_eq!(back.0, vec![9]);
}

#[test]
fn slots_and_block_placements() {
    assert_eq!(bytes_of(&Slot(None)), vec![0xFF, 0xFF]);
    assert_eq!(bytes_of(&Slot(Some((4, 3, 2)))), vec![0, 4, 3, 0, 2]);
    assert_eq!(read_all::<Slot>(&[0, 4, 3, 0, 2]).unwrap(), Slot(Some((4, 3, 2))));
    assert_eq!(read_all::<Slot>(&[0xFF, 0xFF, 9]).unwrap(), Slot(None));
    let p = read_all::<PlayerBlockPlacement>(&[0, 0, 0, 5, 64, 0xFF, 0xFF, 0xFF, 0xFE, 1, 0xFF, 0xFF])
        .unwrap();
    assert_eq!(p.pos, BlockPosition::new(5, 64, -2, 0));
    assert_eq!(p.direction, Face::PositiveY);
    assert_eq!(p.block_or_item, Slot(None));
}
