//! Camera capture configuration.
//!
//! A [`Camera`] is a builder for a capture session: the device path, the
//! requested resolution, pixel format, mirroring and buffer count.  Opening
//! the device and reading buffers is platform I/O done outside this crate;
//! the builder carries the verified configuration to it.

use vstd::prelude::*;

use crate::fourcc::FourCC;

verus! {

/// Mirroring applied to captured frames.
#[derive(Debug, Clone, Copy, PartialEq, Eq, Structural)]
pub enum Mirror {
    /// No mirroring.
    Off,
    /// Flip left/right.
    Horizontal,
    /// Flip top/bottom.
    Vertical,
    /// Flip both ways.
    Both,
}

impl Mirror {
    /// The mirroring mode as text: `none`, `horizontal`, `vertical` or
    /// `both`.
    pub fn display(&self) -> (r: String)
        ensures
            self is Off ==> r@ == "none"@,
            self is Horizontal ==> r@ == "horizontal"@,
            self is Vertical ==> r@ == "vertical"@,
            self is Both ==> r@ == "both"@,
    {
        let mut s = String::new();
        match self {
            Mirror::Off => crate::text::push_str(&mut s, "none"),
            Mirror::Horizontal => crate::text::push_str(&mut s, "horizontal"),
            Mirror::Vertical => crate::text::push_str(&mut s, "vertical"),
            Mirror::Both => crate::text::push_str(&mut s, "both"),
        }
        proof {
            assert(self is Off ==> s@ =~= "none"@);
            assert(self is Horizontal ==> s@ =~= "horizontal"@);
            assert(self is Vertical ==> s@ =~= "vertical"@);
            assert(self is Both ==> s@ =~= "both"@);
        }
        s
    }
}

impl Default for Mirror {
    /// No mirroring.
    fn default() -> (r: Mirror)
        ensures
            r is Off,
    {
        Mirror::Off
    }
}

/// Requested camera configuration; the device may adjust the resolution and
/// format when the capture session opens.
#[derive(Debug, Clone)]
pub struct Camera {
    /// Video device file for the camera.
    pub device: String,
    /// Requested capture width in pixels.
    pub width: i32,
    /// Requested capture height in pixels.
    pub height: i32,
    /// Requested pixel format.
    pub format: FourCC,
    /// Requested mirroring mode.
    pub mirror: Mirror,
    /// Number of capture buffers to create.
    pub num_buffers: i32,
}

impl Camera {
    /// The same configuration aimed at another device file.
    pub fn with_device(self, device: &str) -> (r: Camera)
        ensures
            r == (Camera { device: r.device, ..self }),
            r.device@ == device@,
    {
        Camera {
            device: device.to_owned(),
            width: self.width,
            height: self.height,
            format: self.format,
            mirror: self.mirror,
            num_buffers: self.num_buffers,
        }
    }

    /// The same configuration with another requested resolution.
    pub fn with_resolution(self, width: i32, height: i32) -> (r: Camera)
        ensures
            r == (Camera { width, height, ..self }),
    {
        Camera {
            device: self.device,
            width,
            height,
            format: self.format,
            mirror: self.mirror,
            num_buffers: self.num_buffers,
        }
    }

    /// The same configuration with another requested pixel format.
    pub fn with_format(self, format: FourCC) -> (r: Camera)
        ensures
            r == (Camera { format, ..self }),
    {
        Camera {
            device: self.device,
            width: self.width,
            height: self.height,
            format,
            mirror: self.mirror,
            num_buffers: self.num_buffers,
        }
    }

    /// The same configuration with another mirroring mode.
    pub fn with_mirror(self, mirror: Mirror) -> (r: Camera)
        ensures
            r == (Camera { mirror, ..self }),
    {
        Camera {
            device: self.device,
            width: self.width,
            height: self.height,
            format: self.format,
            mirror,
            num_buffers: self.num_buffers,
        }
    }

    /// The same configuration with another buffer count.
    pub fn with_buffers(self, num_buffers: i32) -> (r: Camera)
        ensures
            r == (Camera { num_buffers, ..self }),
    {
        Camera {
            device: self.device,
            width: self.width,
            height: self.height,
            format: self.format,
            mirror: self.mirror,
            num_buffers,
        }
    }
}

impl Default for Camera {
    /// The first video device at 1080p in the common packed YUV format,
    /// with four capture buffers and no mirroring.
    fn default() -> (r: Camera)
        ensures
            r.device@ == "/dev/video0"@,
            r.width == 1920,
            r.height == 1080,
            r.format.0@ =~= "YUYV"@.map_values(|c: char| c as u8),
            r.mirror is Off,
            r.num_buffers == 4,
    {
        let c = Camera {
            device: "/dev/video0".to_owned(),
            width: 1920,
            height: 1080,
            format: FourCC([0x59, 0x55, 0x59, 0x56]),
            mirror: Mirror::Off,
            num_buffers: 4,
        };
        proof {
            reveal_strlit("YUYV");
            assert(c.format.0@ =~= "YUYV"@.map_values(|ch: char| ch as u8));
        }
        c
    }
}

/// Starts a camera configuration with the default settings.
pub fn create_camera() -> (r: Camera)
    ensures
        r.device@ == "/dev/video0"@,
        r.width == 1920,
        r.height == 1080,
        r.mirror is Off,
        r.num_buffers == 4,
{
    Camera::default()
}

} // verus!
