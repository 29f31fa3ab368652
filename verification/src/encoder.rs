//! Hardware video encoding.
//!
//! Encoding runs on a vendor video-processing unit.  This build of the
//! library carries no VPU backend, so [`is_available`] reports `false` and
//! creating an encoder reports the entry point as missing — exactly what
//! callers see on platforms without the hardware.  The profile and crop
//! types are plain data and are used by callers either way.

use vstd::prelude::*;

use crate::Error;

verus! {

/// A crop region handed to the encoder, in pixels.
pub struct VSLRect {
    x: i32,
    y: i32,
    width: i32,
    height: i32,
}

impl VSLRect {
    /// Creates a crop region.
    pub fn new(x: i32, y: i32, width: i32, height: i32) -> (r: VSLRect)
        ensures
            r.x_spec() == x && r.y_spec() == y && r.width_spec() == width && r.height_spec()
                == height,
    {
        VSLRect { x, y, width, height }
    }

    /// The left-most pixel offset.
    pub closed spec fn x_spec(&self) -> i32 {
        self.x
    }

    /// The top-most pixel offset.
    pub closed spec fn y_spec(&self) -> i32 {
        self.y
    }

    /// The width in pixels.
    pub closed spec fn width_spec(&self) -> i32 {
        self.width
    }

    /// The height in pixels.
    pub closed spec fn height_spec(&self) -> i32 {
        self.height
    }

    /// The left-most pixel offset.
    pub fn x(&self) -> (r: i32)
        ensures
            r == self.x_spec(),
    {
        self.x
    }

    /// The top-most pixel offset.
    pub fn y(&self) -> (r: i32)
        ensures
            r == self.y_spec(),
    {
        self.y
    }

    /// The width in pixels.
    pub fn width(&self) -> (r: i32)
        ensures
            r == self.width_spec(),
    {
        self.width
    }

    /// The height in pixels.
    pub fn height(&self) -> (r: i32)
        ensures
            r == self.height_spec(),
    {
        self.height
    }
}

/// An encoder bitrate profile as the backend names it.
pub struct VSLEncoderProfile {
    /// The backend's numeric profile value.
    pub value: u32,
}

/// The encoder bitrate profiles, ordered from automatic selection through
/// the highest tier.
#[derive(Debug, Clone, Copy, PartialEq, Eq, Structural)]
pub enum VSLEncoderProfileEnum {
    /// Let the encoder pick a bitrate.
    Auto,
    /// Target 5,000 kbps.
    Kbps5000,
    /// Target 25,000 kbps.
    Kbps25000,
    /// Target 50,000 kbps.
    Kbps50000,
    /// Target 100,000 kbps.
    Kbps100000,
}

impl VSLEncoderProfileEnum {
    /// The numeric value of the profile, counted from automatic selection
    /// upwards.
    pub fn as_u32(&self) -> (r: u32)
        ensures
            self is Auto ==> r == 0,
            self is Kbps5000 ==> r == 1,
            self is Kbps25000 ==> r == 2,
            self is Kbps50000 ==> r == 3,
            self is Kbps100000 ==> r == 4,
    {
        match self {
            VSLEncoderProfileEnum::Auto => 0,
            VSLEncoderProfileEnum::Kbps5000 => 1,
            VSLEncoderProfileEnum::Kbps25000 => 2,
            VSLEncoderProfileEnum::Kbps50000 => 3,
            VSLEncoderProfileEnum::Kbps100000 => 4,
        }
    }
}

/// Whether encoding is available: this build carries no VPU backend, so the
/// answer is always `false`, and callers fall back to software paths.
pub fn is_available() -> (r: Result<bool, Error>)
    ensures
        r == Ok::<bool, Error>(false),
{
    Ok(false)
}

/// A hardware encoder session.  None can be created in this build, so a
/// value of this type never exists; the type keeps the encoding API shape
/// for callers that probe availability first.
pub struct Encoder {
    profile: u32,
    fourcc: u32,
    fps: i32,
}

impl Encoder {
    /// Creates an encoder session.  This build carries no VPU entry points,
    /// so creation always reports the symbol as missing.
    pub fn create(profile: u32, output_fourcc: u32, fps: i32) -> (r: Result<Encoder, Error>)
        ensures
            r == Err::<Encoder, Error>(Error::SymbolNotFound),
    {
        let _ = profile;
        let _ = output_fourcc;
        let _ = fps;
        Err(Error::SymbolNotFound)
    }
}

} // verus!
