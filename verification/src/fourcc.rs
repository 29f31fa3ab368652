//! Four-character pixel/codec format codes.
//!
//! A FourCC such as `"YUYV"` or `"H264"` names a pixel layout or bitstream
//! format.  On the wire and in frame metadata it travels as a little-endian
//! 32-bit integer; this module converts between the two forms.

use vstd::prelude::*;

verus! {

/// A four-character format code.
#[derive(Debug, Clone, Copy, Hash)]
pub struct FourCC(pub [u8; 4]);

impl PartialEq for FourCC {
    fn eq(&self, other: &FourCC) -> (r: bool)
        ensures
            r == (self.0@ =~= other.0@),
    {
        self.0[0] == other.0[0] && self.0[1] == other.0[1] && self.0[2] == other.0[2] && self.0[3]
            == other.0[3]
    }
}

impl Eq for FourCC {

}

impl vstd::std_specs::cmp::PartialEqSpecImpl for FourCC {
    open spec fn obeys_eq_spec() -> bool {
        true
    }

    open spec fn eq_spec(&self, other: &FourCC) -> bool {
        self.0@ =~= other.0@
    }
}

/// The little-endian 32-bit value of four code bytes.
pub open spec fn fourcc_value(b: Seq<u8>) -> u32
    recommends
        b.len() == 4,
{
    (b[0] as u32) | ((b[1] as u32) << 8) | ((b[2] as u32) << 16) | ((b[3] as u32) << 24)
}

/// The four code bytes of a little-endian 32-bit value.
pub open spec fn fourcc_bytes(v: u32) -> Seq<u8> {
    seq![(v & 0xff) as u8, ((v >> 8) & 0xff) as u8, ((v >> 16) & 0xff) as u8, (
    (v >> 24) & 0xff) as u8]
}

impl FourCC {
    /// The code as its little-endian 32-bit integer form.
    pub fn as_u32(&self) -> (r: u32)
        ensures
            r == fourcc_value(self.0@),
    {
        (self.0[0] as u32) | ((self.0[1] as u32) << 8) | ((self.0[2] as u32) << 16) | ((
        self.0[3] as u32) << 24)
    }

    /// The code as its little-endian 32-bit integer form; the same value as
    /// [`FourCC::as_u32`].
    pub fn to_u32(&self) -> (r: u32)
        ensures
            r == fourcc_value(self.0@),
    {
        self.as_u32()
    }

    /// The code for a little-endian 32-bit integer.
    pub fn from_u32(v: u32) -> (r: FourCC)
        ensures
            r.0@ == fourcc_bytes(v),
    {
        FourCC(
            [(v & 0xff) as u8, ((v >> 8) & 0xff) as u8, ((v >> 16) & 0xff) as u8, ((v >> 24)
                & 0xff) as u8],
        )
    }
}

impl FourCC {
    /// The code for the first four bytes of a slice.
    pub fn from_slice(buf: &[u8]) -> (r: FourCC)
        requires
            buf@.len() >= 4,
        ensures
            r.0@ =~= buf@.subrange(0, 4),
    {
        FourCC([buf[0], buf[1], buf[2], buf[3]])
    }

    /// The four characters of the code as a string.  Each byte becomes the
    /// character with the same value, so ASCII codes such as `"YUYV"` render
    /// as themselves.
    pub fn display(&self) -> (r: String)
        ensures
            r@ =~= seq![
                self.0@[0] as char,
                self.0@[1] as char,
                self.0@[2] as char,
                self.0@[3] as char,
            ],
    {
        let mut s = String::new();
        crate::text::push_char(&mut s, self.0[0] as char);
        crate::text::push_char(&mut s, self.0[1] as char);
        crate::text::push_char(&mut s, self.0[2] as char);
        crate::text::push_char(&mut s, self.0[3] as char);
        s
    }
}

impl From<&[u8; 4]> for FourCC {
    fn from(buf: &[u8; 4]) -> (r: FourCC) {
        FourCC(*buf)
    }
}

impl vstd::std_specs::convert::FromSpecImpl<&[u8; 4]> for FourCC {
    open spec fn obeys_from_spec() -> bool {
        true
    }

    open spec fn from_spec(buf: &[u8; 4]) -> FourCC {
        FourCC(*buf)
    }
}

impl From<u32> for FourCC {
    fn from(v: u32) -> (r: FourCC) {
        FourCC(
            [(v & 0xff) as u8, ((v >> 8) & 0xff) as u8, ((v >> 16) & 0xff) as u8, ((v >> 24)
                & 0xff) as u8],
        )
    }
}

impl vstd::std_specs::convert::FromSpecImpl<u32> for FourCC {
    open spec fn obeys_from_spec() -> bool {
        true
    }

    open spec fn from_spec(v: u32) -> FourCC {
        FourCC(
            [(v & 0xff) as u8, ((v >> 8) & 0xff) as u8, ((v >> 16) & 0xff) as u8, ((v >> 24)
                & 0xff) as u8],
        )
    }
}

impl From<FourCC> for u32 {
    fn from(f: FourCC) -> (r: u32) {
        f.as_u32()
    }
}

impl vstd::std_specs::convert::FromSpecImpl<FourCC> for u32 {
    open spec fn obeys_from_spec() -> bool {
        true
    }

    open spec fn from_spec(f: FourCC) -> u32 {
        fourcc_value(f.0@)
    }
}

/// Round trip: decoding the integer form of any code yields the same four
/// bytes back.
pub proof fn lemma_fourcc_roundtrip(b: [u8; 4])
    ensures
        fourcc_bytes(fourcc_value(b@)) =~= b@,
{
    let b0 = b@[0];
    let b1 = b@[1];
    let b2 = b@[2];
    let b3 = b@[3];
    let v = fourcc_value(b@);
    assert((v & 0xff) as u8 == b0 && ((v >> 8) & 0xff) as u8 == b1 && ((v >> 16) & 0xff) as u8
        == b2 && ((v >> 24) & 0xff) as u8 == b3) by (bit_vector)
        requires
            v == (b0 as u32) | ((b1 as u32) << 8) | ((b2 as u32) << 16) | ((b3 as u32) << 24),
    ;
}

} // verus!
