//! Packets built field by field.
use vstd::prelude::*;
use vstd::utf8::encode_utf8;

use crate::protocol::io::{
    be16, be32, be64, encode_utf16, units_be, write_units, Error, ProtocolVersion, String16,
    Writeable,
};

verus! {

/// One field of a packet being built. Floating-point fields are held by
/// their bits.
#[derive(Clone)]
pub enum Element {
    SByte { byte: i8 },
    RawByte { byte: u8 },
    Int { value: i32 },
    Long { long: i64 },
    Float { bits: u32 },
    Double { bits: u64 },
    String8 { string: String },
    String16 { string: String },
    Short { short: i16 },
    Bytes { bytes: Vec<u8> },
}

/// The bytes of one field: integers and floats big-endian; a UTF-8 string
/// after its byte length and a UTF-16 string after its number of code
/// units, both as an `i16`; byte arrays as they are.
pub open spec fn element_bytes(e: Element) -> Seq<u8> {
    match e {
        Element::SByte { byte } => seq![byte as u8],
        Element::RawByte { byte } => seq![byte],
        Element::Int { value } => be32(value as u32),
        Element::Long { long } => be64(long as u64),
        Element::Float { bits } => be32(bits),
        Element::Double { bits } => be64(bits),
        Element::String8 { string } => be16(
            (((encode_utf8(string@).len() as usize) as i16) as u16),
        ) + encode_utf8(string@),
        Element::String16 { string } => be16(
            (((encode_utf16(string@).len() as usize) as i16) as u16),
        ) + units_be(encode_utf16(string@)),
        Element::Short { short } => be16(short as u16),
        Element::Bytes { bytes } => bytes@,
    }
}

/// The bytes of the fields, one after the other.
pub open spec fn elements_bytes(es: Seq<Element>) -> Seq<u8>
    decreases es.len(),
{
    if es.len() == 0 {
        seq![]
    } else {
        elements_bytes(es.drop_last()) + element_bytes(es.last())
    }
}

/// Builds a packet from its fields.
pub struct ClassicPacketBuilder {
    elements: Vec<Element>,
}

fn element_write(e: &Element, packet: &mut Vec<u8>)
    ensures
        final(packet)@ == old(packet)@ + element_bytes(*e),
{
    let version = ProtocolVersion::Vb1_8_1;
    match e {
        Element::String16 { string } => {
            let (units, _count) = String16(string.clone()).utf16_and_count();
            let n = #[verifier::truncate] (units.len() as i16);
            let _ = n.write(packet, version);
            write_units(&units, packet);
        },
        Element::Float { bits } => {
            let _ = bits.write(packet, version);
        },
        Element::Double { bits } => {
            let _ = bits.write(packet, version);
        },
        Element::String8 { string } => {
            let _ = string.write(packet, version);
        },
        Element::RawByte { byte } => {
            packet.push(*byte);
        },
        Element::SByte { byte } => {
            let _ = byte.write(packet, version);
        },
        Element::Short { short } => {
            let _ = short.write(packet, version);
        },
        Element::Int { value } => {
            let _ = value.write(packet, version);
        },
        Element::Long { long } => {
            let _ = long.write(packet, version);
        },
        Element::Bytes { bytes } => {
            packet.extend_from_slice(bytes.as_slice());
        },
    }
}

impl ClassicPacketBuilder {
    /// The fields so far, in order.
    pub closed spec fn elements(&self) -> Seq<Element> {
        self.elements@
    }

    pub fn new() -> (r: Self)
        ensures
            r.elements() == Seq::<Element>::empty(),
    {
        return Self { elements: Vec::new() };
    }

    pub fn insert_string(&mut self, string: &str)
        ensures
            final(self).elements().len() == old(self).elements().len() + 1,
            final(self).elements().drop_last() == old(self).elements(),
            final(self).elements().last() matches Element::String8 { string: s } && s@ == string@,
    {
        self.elements.push(Element::String8 { string: string.to_owned() });
    }

    pub fn insert_string16(&mut self, string: &str)
        ensures
            final(self).elements().len() == old(self).elements().len() + 1,
            final(self).elements().drop_last() == old(self).elements(),
            final(self).elements().last() matches Element::String16 { string: s } && s@ == string@,
    {
        self.elements.push(Element::String16 { string: string.to_owned() });
    }

    pub fn insert_bytearray(&mut self, bytes: Vec<u8>)
        ensures
            final(self).elements() == old(self).elements().push(Element::Bytes { bytes }),
    {
        self.elements.push(Element::Bytes { bytes: bytes });
    }

    pub fn insert_sbyte(&mut self, byte: i8)
        ensures
            final(self).elements() == old(self).elements().push(Element::SByte { byte }),
    {
        self.elements.push(Element::SByte { byte: byte });
    }

    pub fn insert_byte(&mut self, byte: i8)
        ensures
            final(self).elements() == old(self).elements().push(Element::SByte { byte }),
    {
        self.elements.push(Element::SByte { byte: byte });
    }

    pub fn insert_byte_raw(&mut self, byte: u8)
        ensures
            final(self).elements() == old(self).elements().push(Element::RawByte { byte }),
    {
        self.elements.push(Element::RawByte { byte: byte });
    }

    pub fn insert_short(&mut self, short: i16)
        ensures
            final(self).elements() == old(self).elements().push(Element::Short { short }),
    {
        self.elements.push(Element::Short { short: short });
    }

    pub fn insert_int(&mut self, value: i32)
        ensures
            final(self).elements() == old(self).elements().push(Element::Int { value }),
    {
        self.elements.push(Element::Int { value });
    }

    pub fn insert_long(&mut self, long: i64)
        ensures
            final(self).elements() == old(self).elements().push(Element::Long { long }),
    {
        self.elements.push(Element::Long { long: long });
    }

    /// Adds a 32-bit float field, given by its bits.
    pub fn insert_float_bits(&mut self, bits: u32)
        ensures
            final(self).elements() == old(self).elements().push(Element::Float { bits }),
    {
        self.elements.push(Element::Float { bits });
    }

    /// Adds a 64-bit float field, given by its bits.
    pub fn insert_double_bits(&mut self, bits: u64)
        ensures
            final(self).elements() == old(self).elements().push(Element::Double { bits }),
    {
        self.elements.push(Element::Double { bits });
    }

    /// The packet: its id, then its fields.
    pub fn build(self, id: u8) -> (r: Result<Vec<u8>, Error>)
        ensures
            r matches Ok(p) && p@ == seq![id] + elements_bytes(self.elements()),
    {
        let mut this = self;
        let mut packet = vec![id];
        let mut rest = this.internal_builder()?;
        packet.append(&mut rest);
        return Ok(packet);
    }

    fn internal_builder(&mut self) -> (r: Result<Vec<u8>, Error>)
        ensures
            *final(self) == *old(self),
            r matches Ok(p) && p@ == elements_bytes(old(self).elements()),
    {
        let mut packet: Vec<u8> = Vec::new();
        let mut i: usize = 0;
        while i < self.elements.len()
            invariant
                i <= self.elements@.len(),
                *self == *old(self),
                packet@ == elements_bytes(self.elements@.take(i as int)),
            decreases self.elements@.len() - i,
        {
            element_write(&self.elements[i], &mut packet);
            proof {
                assert(self.elements@.take(i as int + 1).drop_last() =~= self.elements@.take(
                    i as int,
                ));
            }
            i += 1;
        }
        assert(self.elements@.take(i as int) =~= self.elements@);
        return Ok(packet);
    }
}

} // verus!
