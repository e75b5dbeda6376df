//! Entity metadata.
use vstd::prelude::*;

verus! {

/// An entity's metadata: its flag bits (on fire, crouched, sprinting and
/// so on), and whether it changed since it was last sent.
#[derive(Debug, Clone, Copy, PartialEq, Eq, Structural)]
pub struct Metadata {
    pub flags: u8,
    pub dirty: bool,
}

impl Metadata {
    /// No flags set, and to be sent.
    pub fn new() -> (r: Self)
        ensures
            r.flags == 0,
            r.dirty,
    {
        Self { flags: 0, dirty: true }
    }

    /// The metadata as sent: the flags as entry 0, a byte, then the end
    /// marker 0x7F.
    pub fn finish(&self) -> (r: Vec<u8>)
        ensures
            r@ == seq![0x00u8, self.flags, 0x7Fu8],
    {
        let mut bytes = Vec::new();
        bytes.push(0x00);
        bytes.push(self.flags);
        bytes.push(0x7F);
        assert(bytes@ =~= seq![0x00u8, self.flags, 0x7Fu8]);
        bytes
    }
}

} // verus!
