//! V4L2 device inventory: classification of video devices, their buffer
//! memory capabilities, and the formats they accept or produce.
//!
//! Scanning `/dev/video*` and querying capabilities is platform I/O done
//! outside this crate; it hands in plain values from which [`Device`]
//! records are built.  Everything from there on — classification, the
//! bitmask/set conversions for memory capabilities, and the search for a
//! device by codec or format — is verified here.

use vstd::prelude::*;

use crate::fourcc::FourCC;

verus! {

/// Raw classification value for a video capture device.
pub const RAW_TYPE_CAMERA: u32 = 0;

/// Raw classification value for a video output device.
pub const RAW_TYPE_OUTPUT: u32 = 1;

/// Raw classification value for a memory-to-memory encoder.
pub const RAW_TYPE_ENCODER: u32 = 2;

/// Raw classification value for a memory-to-memory decoder.
pub const RAW_TYPE_DECODER: u32 = 3;

/// Raw classification value for an image signal processor.
pub const RAW_TYPE_ISP: u32 = 4;

/// Raw classification value for a generic memory-to-memory device.
pub const RAW_TYPE_M2M: u32 = 5;

/// Memory-capability bit for memory-mapped buffers.
pub const MEM_MMAP: u32 = 1;

/// Memory-capability bit for user-pointer buffers.
pub const MEM_USERPTR: u32 = 2;

/// Memory-capability bit for DMA-buffer descriptors.
pub const MEM_DMABUF: u32 = 4;

/// Classification of a video device by its capabilities.
#[derive(Debug, Clone, Copy, PartialEq, Eq, Hash, Structural)]
pub enum DeviceType {
    /// Video capture device: produces frames.
    Camera,
    /// Video output device: accepts frames.
    Output,
    /// Memory-to-memory encoder: raw in, compressed out.
    Encoder,
    /// Memory-to-memory decoder: compressed in, raw out.
    Decoder,
    /// Memory-to-memory image processor: raw in, raw out.
    Isp,
    /// Generic memory-to-memory device.
    M2m,
    /// The type could not be determined.
    Unknown,
}

/// The classification a raw value decodes to.
pub open spec fn spec_device_type_of(raw: u32) -> DeviceType {
    if raw == RAW_TYPE_CAMERA {
        DeviceType::Camera
    } else if raw == RAW_TYPE_OUTPUT {
        DeviceType::Output
    } else if raw == RAW_TYPE_ENCODER {
        DeviceType::Encoder
    } else if raw == RAW_TYPE_DECODER {
        DeviceType::Decoder
    } else if raw == RAW_TYPE_ISP {
        DeviceType::Isp
    } else if raw == RAW_TYPE_M2M {
        DeviceType::M2m
    } else {
        DeviceType::Unknown
    }
}

impl DeviceType {
    /// Decodes a raw classification value; anything unrecognized becomes
    /// [`DeviceType::Unknown`].
    pub fn from_raw(raw: u32) -> (r: Option<DeviceType>)
        ensures
            r == Some(spec_device_type_of(raw)),
    {
        if raw == RAW_TYPE_CAMERA {
            Some(DeviceType::Camera)
        } else if raw == RAW_TYPE_OUTPUT {
            Some(DeviceType::Output)
        } else if raw == RAW_TYPE_ENCODER {
            Some(DeviceType::Encoder)
        } else if raw == RAW_TYPE_DECODER {
            Some(DeviceType::Decoder)
        } else if raw == RAW_TYPE_ISP {
            Some(DeviceType::Isp)
        } else if raw == RAW_TYPE_M2M {
            Some(DeviceType::M2m)
        } else {
            Some(DeviceType::Unknown)
        }
    }

    /// The classification's name.
    pub fn name(&self) -> (r: &'static str)
        ensures
            self is Camera ==> r@ == "Camera"@,
            self is Output ==> r@ == "Output"@,
            self is Encoder ==> r@ == "Encoder"@,
            self is Decoder ==> r@ == "Decoder"@,
            self is Isp ==> r@ == "ISP"@,
            self is M2m ==> r@ == "M2M"@,
            self is Unknown ==> r@ == "Unknown"@,
    {
        match self {
            DeviceType::Camera => "Camera",
            DeviceType::Output => "Output",
            DeviceType::Encoder => "Encoder",
            DeviceType::Decoder => "Decoder",
            DeviceType::Isp => "ISP",
            DeviceType::M2m => "M2M",
            DeviceType::Unknown => "Unknown",
        }
    }

    /// The classification's name as an owned string.
    pub fn display(&self) -> (r: String)
        ensures
            self is Camera ==> r@ == "Camera"@,
            self is Output ==> r@ == "Output"@,
            self is Encoder ==> r@ == "Encoder"@,
            self is Decoder ==> r@ == "Decoder"@,
            self is Isp ==> r@ == "ISP"@,
            self is M2m ==> r@ == "M2M"@,
            self is Unknown ==> r@ == "Unknown"@,
    {
        self.name().to_owned()
    }
}

/// Buffer memory types a device supports for streaming.
#[derive(Debug, Clone, Copy, PartialEq, Eq, Hash, Structural)]
pub enum MemoryType {
    /// Kernel-allocated, memory-mapped buffers.
    Mmap,
    /// Caller-allocated buffers passed by pointer.
    UserPtr,
    /// DMA-buffer descriptors; enables zero-copy hand-offs.
    DmaBuf,
}

/// The memory types named by a capability bitmask, in a fixed order.
pub open spec fn spec_memory_types_of(mask: u32) -> Seq<MemoryType> {
    let a = if mask & MEM_MMAP != 0 {
        seq![MemoryType::Mmap]
    } else {
        Seq::empty()
    };
    let b = if mask & MEM_USERPTR != 0 {
        seq![MemoryType::UserPtr]
    } else {
        Seq::empty()
    };
    let c = if mask & MEM_DMABUF != 0 {
        seq![MemoryType::DmaBuf]
    } else {
        Seq::empty()
    };
    a + b + c
}

impl MemoryType {
    /// Expands a capability bitmask into the memory types whose bits are
    /// set.
    pub fn from_mask(mask: u32) -> (r: Vec<MemoryType>)
        ensures
            r@ =~= spec_memory_types_of(mask),
    {
        let mut types: Vec<MemoryType> = Vec::new();
        if mask & MEM_MMAP != 0 {
            types.push(MemoryType::Mmap);
        }
        if mask & MEM_USERPTR != 0 {
            types.push(MemoryType::UserPtr);
        }
        if mask & MEM_DMABUF != 0 {
            types.push(MemoryType::DmaBuf);
        }
        types
    }

    /// The memory type as text: `MMAP`, `USERPTR` or `DMABUF`.
    pub fn display(&self) -> (r: String)
        ensures
            self is Mmap ==> r@ == "MMAP"@,
            self is UserPtr ==> r@ == "USERPTR"@,
            self is DmaBuf ==> r@ == "DMABUF"@,
    {
        let mut s = String::new();
        match self {
            MemoryType::Mmap => crate::text::push_str(&mut s, "MMAP"),
            MemoryType::UserPtr => crate::text::push_str(&mut s, "USERPTR"),
            MemoryType::DmaBuf => crate::text::push_str(&mut s, "DMABUF"),
        }
        proof {
            assert(self is Mmap ==> s@ =~= "MMAP"@);
            assert(self is UserPtr ==> s@ =~= "USERPTR"@);
            assert(self is DmaBuf ==> s@ =~= "DMABUF"@);
        }
        s
    }
}

/// Whether a sequence of memory types names the given one.
pub open spec fn spec_has_memory_type(types: Seq<MemoryType>, t: MemoryType) -> bool {
    exists|i: int| 0 <= i < types.len() && types[i] == t
}

/// Memory capability flags for one buffer queue: the set-of-variants form
/// of the capability bitmask.
#[derive(Debug, Clone, Copy, PartialEq, Eq, Structural)]
pub struct MemoryCapabilities {
    /// Supports memory-mapped buffers.
    pub mmap: bool,
    /// Supports user-pointer buffers.
    pub userptr: bool,
    /// Supports DMA-buffer descriptors.
    pub dmabuf: bool,
}

impl MemoryCapabilities {
    /// The capability flags for a list of supported memory types.
    pub fn from_types(types: &[MemoryType]) -> (r: MemoryCapabilities)
        ensures
            r.mmap == spec_has_memory_type(types@, MemoryType::Mmap),
            r.userptr == spec_has_memory_type(types@, MemoryType::UserPtr),
            r.dmabuf == spec_has_memory_type(types@, MemoryType::DmaBuf),
    {
        let mut mmap = false;
        let mut userptr = false;
        let mut dmabuf = false;
        let n = types.len();
        let mut i: usize = 0;
        while i < n
            invariant
                n == types@.len(),
                i <= n,
                mmap == spec_has_memory_type(types@.subrange(0, i as int), MemoryType::Mmap),
                userptr == spec_has_memory_type(
                    types@.subrange(0, i as int),
                    MemoryType::UserPtr,
                ),
                dmabuf == spec_has_memory_type(types@.subrange(0, i as int), MemoryType::DmaBuf),
            decreases n - i,
        {
            let ghost pre = types@.subrange(0, i as int);
            let ghost cur = types@.subrange(0, i as int + 1);
            match types[i] {
                MemoryType::Mmap => mmap = true,
                MemoryType::UserPtr => userptr = true,
                MemoryType::DmaBuf => dmabuf = true,
            }
            proof {
                assert(cur.len() == pre.len() + 1 && cur.last() == types@[i as int]);
                assert forall|t: MemoryType|
                    spec_has_memory_type(cur, t) == (spec_has_memory_type(pre, t) || types@[
                    i as int] == t) by {
                    if spec_has_memory_type(pre, t) {
                        let w = choose|w: int| 0 <= w < pre.len() && pre[w] == t;
                        assert(cur[w] == t);
                    }
                    if types@[i as int] == t {
                        assert(cur[cur.len() - 1] == t);
                    }
                    if spec_has_memory_type(cur, t) {
                        let w = choose|w: int| 0 <= w < cur.len() && cur[w] == t;
                        if w < pre.len() {
                            assert(pre[w] == t);
                        }
                    }
                }
            }
            i = i + 1;
        }
        proof {
            assert(types@.subrange(0, n as int) =~= types@);
        }
        MemoryCapabilities { mmap, userptr, dmabuf }
    }
}

impl Default for MemoryCapabilities {
    /// No memory type supported.
    fn default() -> (r: MemoryCapabilities)
        ensures
            r == (MemoryCapabilities { mmap: false, userptr: false, dmabuf: false }),
    {
        MemoryCapabilities { mmap: false, userptr: false, dmabuf: false }
    }
}

/// A supported video resolution in pixels.
#[derive(Debug, Clone, Copy, PartialEq, Eq, Structural)]
pub struct Resolution {
    /// Width in pixels.
    pub width: u32,
    /// Height in pixels.
    pub height: u32,
}

impl Resolution {
    /// Creates a resolution.
    pub fn new(width: u32, height: u32) -> (r: Resolution)
        ensures
            r == (Resolution { width, height }),
    {
        Resolution { width, height }
    }

    /// The resolution as text, e.g. `1920x1080`.
    pub fn display(&self) -> (r: String)
        ensures
            r@ == crate::text::spec_dec(self.width as nat) + "x"@ + crate::text::spec_dec(
                self.height as nat,
            ),
    {
        let mut s = String::new();
        crate::text::push_dec_u64(&mut s, self.width as u64);
        crate::text::push_str(&mut s, "x");
        crate::text::push_dec_u64(&mut s, self.height as u64);
        proof {
            assert(s@ =~= Seq::<char>::empty() + crate::text::spec_dec(self.width as nat) + "x"@
                + crate::text::spec_dec(self.height as nat));
        }
        s
    }
}

/// A pixel format a device supports: its code, the driver's description,
/// whether it is compressed, and the resolutions enumerated for it.
#[derive(Debug, Clone)]
pub struct Format {
    /// Four-character format code.
    pub fourcc: FourCC,
    /// Human-readable description from the driver.
    pub description: String,
    /// Whether this is a compressed format.
    pub compressed: bool,
    /// Supported resolutions, when enumerated.
    pub resolutions: Vec<Resolution>,
}

impl Format {
    /// Creates a format record.
    pub fn new(fourcc: FourCC, description: String, compressed: bool, resolutions: Vec<
        Resolution,
    >) -> (r: Format)
        ensures
            r == (Format { fourcc, description, compressed, resolutions }),
    {
        Format { fourcc, description, compressed, resolutions }
    }
}

/// One discovered video device: its path, driver identity, classification,
/// and the memory types and formats of its queues.
#[derive(Debug, Clone)]
pub struct Device {
    path: String,
    driver: String,
    card: String,
    bus_info: String,
    device_type: DeviceType,
    multiplanar: bool,
    capture_memory: Vec<MemoryType>,
    output_memory: Vec<MemoryType>,
    capture_formats: Vec<Format>,
    output_formats: Vec<Format>,
}

impl Device {
    /// Builds a device record from the values the platform scan reported.
    pub fn new(
        path: String,
        driver: String,
        card: String,
        bus_info: String,
        device_type: DeviceType,
        multiplanar: bool,
        capture_memory: Vec<MemoryType>,
        output_memory: Vec<MemoryType>,
        capture_formats: Vec<Format>,
        output_formats: Vec<Format>,
    ) -> (r: Device)
        ensures
            r.path_spec() == path@,
            r.driver_spec() == driver@,
            r.card_spec() == card@,
            r.bus_info_spec() == bus_info@,
            r.device_type_spec() == device_type,
            r.multiplanar_spec() == multiplanar,
            r.capture_memory_spec() == capture_memory@,
            r.output_memory_spec() == output_memory@,
            r.capture_formats_spec() == capture_formats,
            r.output_formats_spec() == output_formats,
    {
        Device {
            path,
            driver,
            card,
            bus_info,
            device_type,
            multiplanar,
            capture_memory,
            output_memory,
            capture_formats,
            output_formats,
        }
    }

    /// The device node path.
    pub closed spec fn path_spec(&self) -> Seq<char> {
        self.path@
    }

    /// The kernel driver's name.
    pub closed spec fn driver_spec(&self) -> Seq<char> {
        self.driver@
    }

    /// The device's card name.
    pub closed spec fn card_spec(&self) -> Seq<char> {
        self.card@
    }

    /// The device's bus identification.
    pub closed spec fn bus_info_spec(&self) -> Seq<char> {
        self.bus_info@
    }

    /// The device's classification.
    pub closed spec fn device_type_spec(&self) -> DeviceType {
        self.device_type
    }

    /// Whether the device uses the multiplanar buffer API.
    pub closed spec fn multiplanar_spec(&self) -> bool {
        self.multiplanar
    }

    /// The capture queue's memory types.
    pub closed spec fn capture_memory_spec(&self) -> Seq<MemoryType> {
        self.capture_memory@
    }

    /// The output queue's memory types.
    pub closed spec fn output_memory_spec(&self) -> Seq<MemoryType> {
        self.output_memory@
    }

    /// The capture queue's formats.
    pub closed spec fn capture_formats_spec(&self) -> Vec<Format> {
        self.capture_formats
    }

    /// The output queue's formats.
    pub closed spec fn output_formats_spec(&self) -> Vec<Format> {
        self.output_formats
    }

    /// Device node path, e.g. `/dev/video0`.
    pub fn path(&self) -> (r: &str)
        ensures
            r@ == self.path_spec(),
    {
        self.path.as_str()
    }

    /// Device node path; same view as [`Device::path`].
    pub fn path_str(&self) -> (r: &str)
        ensures
            r@ == self.path_spec(),
    {
        self.path.as_str()
    }

    /// Kernel driver name.
    pub fn driver(&self) -> (r: &str)
        ensures
            r@ == self.driver_spec(),
    {
        self.driver.as_str()
    }

    /// Human-readable device name from the driver.
    pub fn card(&self) -> (r: &str)
        ensures
            r@ == self.card_spec(),
    {
        self.card.as_str()
    }

    /// Bus identification, useful for grouping nodes of one hardware unit.
    pub fn bus_info(&self) -> (r: &str)
        ensures
            r@ == self.bus_info_spec(),
    {
        self.bus_info.as_str()
    }

    /// Bus identification; same as [`Device::bus_info`].
    pub fn bus(&self) -> (r: &str)
        ensures
            r@ == self.bus_info_spec(),
    {
        self.bus_info.as_str()
    }

    /// The device's classification.
    pub fn device_type(&self) -> (r: DeviceType)
        ensures
            r == self.device_type_spec(),
    {
        self.device_type
    }

    /// Whether the device uses the multiplanar buffer API.
    pub fn is_multiplanar(&self) -> (r: bool)
        ensures
            r == self.multiplanar_spec(),
    {
        self.multiplanar
    }

    /// Capture-side memory support as capability flags.
    pub fn capture_memory(&self) -> (r: MemoryCapabilities)
        ensures
            r.mmap == spec_has_memory_type(self.capture_memory_spec(), MemoryType::Mmap),
            r.userptr == spec_has_memory_type(self.capture_memory_spec(), MemoryType::UserPtr),
            r.dmabuf == spec_has_memory_type(self.capture_memory_spec(), MemoryType::DmaBuf),
    {
        MemoryCapabilities::from_types(self.capture_memory.as_slice())
    }

    /// Capture-side memory support as the raw list.
    pub fn capture_memory_types(&self) -> (r: &[MemoryType])
        ensures
            r@ == self.capture_memory_spec(),
    {
        self.capture_memory.as_slice()
    }

    /// Output-side memory support as capability flags.
    pub fn output_memory(&self) -> (r: MemoryCapabilities)
        ensures
            r.mmap == spec_has_memory_type(self.output_memory_spec(), MemoryType::Mmap),
            r.userptr == spec_has_memory_type(self.output_memory_spec(), MemoryType::UserPtr),
            r.dmabuf == spec_has_memory_type(self.output_memory_spec(), MemoryType::DmaBuf),
    {
        MemoryCapabilities::from_types(self.output_memory.as_slice())
    }

    /// Output-side memory support as the raw list.
    pub fn output_memory_types(&self) -> (r: &[MemoryType])
        ensures
            r@ == self.output_memory_spec(),
    {
        self.output_memory.as_slice()
    }

    /// Formats the device produces on its capture queue.
    pub fn capture_formats(&self) -> (r: &Vec<Format>)
        ensures
            r == self.capture_formats_spec(),
    {
        &self.capture_formats
    }

    /// Formats the device accepts on its output queue.
    pub fn output_formats(&self) -> (r: &Vec<Format>)
        ensures
            r == self.output_formats_spec(),
    {
        &self.output_formats
    }

    /// Whether captured buffers can leave as DMA-buffer descriptors,
    /// enabling zero-copy sharing.
    pub fn supports_capture_dmabuf(&self) -> (r: bool)
        ensures
            r == spec_has_memory_type(self.capture_memory_spec(), MemoryType::DmaBuf),
    {
        self.capture_memory().dmabuf
    }

    /// Whether the output queue accepts DMA-buffer descriptors for
    /// zero-copy input.
    pub fn supports_output_dmabuf(&self) -> (r: bool)
        ensures
            r == spec_has_memory_type(self.output_memory_spec(), MemoryType::DmaBuf),
    {
        self.output_memory().dmabuf
    }

    /// Whether the device is classified as an encoder.
    pub fn is_encoder(&self) -> (r: bool)
        ensures
            r == (self.device_type_spec() is Encoder),
    {
        match self.device_type {
            DeviceType::Encoder => true,
            _ => false,
        }
    }

    /// Whether the device is classified as a decoder.
    pub fn is_decoder(&self) -> (r: bool)
        ensures
            r == (self.device_type_spec() is Decoder),
    {
        match self.device_type {
            DeviceType::Decoder => true,
            _ => false,
        }
    }

    /// Whether the device is classified as a camera.
    pub fn is_camera(&self) -> (r: bool)
        ensures
            r == (self.device_type_spec() is Camera),
    {
        match self.device_type {
            DeviceType::Camera => true,
            _ => false,
        }
    }
}

/// Whether a format list holds the given code.
pub open spec fn spec_has_fourcc(formats: Vec<Format>, code: Seq<u8>) -> bool {
    exists|i: int| 0 <= i < formats@.len() && (#[trigger] formats@[i]).fourcc.0@ == code
}

/// Whether the device matches a search: the wanted classification, with the
/// code among the formats of the queue that classification is searched by —
/// capture formats for cameras and encoders, output formats for decoders.
pub open spec fn spec_device_matches(d: Device, t: DeviceType, code: Seq<u8>) -> bool {
    &&& d.device_type_spec() == t
    &&& if t is Decoder {
        spec_has_fourcc(d.output_formats_spec(), code)
    } else {
        spec_has_fourcc(d.capture_formats_spec(), code)
    }
}

fn has_fourcc(formats: &Vec<Format>, code: &[u8; 4]) -> (r: bool)
    ensures
        r == spec_has_fourcc(*formats, code@),
{
    let n = formats.len();
    let mut i: usize = 0;
    while i < n
        invariant
            n == formats@.len(),
            i <= n,
            forall|j: int| 0 <= j < i ==> (#[trigger] formats@[j]).fourcc.0@ != code@,
        decreases n - i,
    {
        let f = &formats[i].fourcc;
        if f.0[0] == code[0] && f.0[1] == code[1] && f.0[2] == code[2] && f.0[3] == code[3] {
            proof {
                assert((#[trigger] formats@[i as int]).fourcc.0@ =~= code@);
            }
            return true;
        }
        proof {
            assert((#[trigger] formats@[i as int]).fourcc.0@ != code@);
        }
        i = i + 1;
    }
    false
}

/// Discovers and searches video devices.  The platform scan produces the
/// [`Device`] records; the search methods pick from them.
pub struct DeviceEnumerator;

impl DeviceEnumerator {
    fn find_typed(devices: &Vec<Device>, t: DeviceType, code: &[u8; 4]) -> (r: Option<String>)
        ensures
            r is Some <==> exists|i: int|
                0 <= i < devices@.len() && spec_device_matches(#[trigger] devices@[i], t, code@),
            r matches Some(p) ==> exists|i: int|
                {
                    &&& 0 <= i < devices@.len()
                    &&& spec_device_matches(#[trigger] devices@[i], t, code@)
                    &&& p@ == devices@[i].path_spec()
                },
    {
        let n = devices.len();
        let mut i: usize = 0;
        while i < n
            invariant
                n == devices@.len(),
                i <= n,
                forall|j: int|
                    0 <= j < i ==> !spec_device_matches(#[trigger] devices@[j], t, code@),
            decreases n - i,
        {
            let d = &devices[i];
            let type_matches = match (d.device_type(), t) {
                (DeviceType::Camera, DeviceType::Camera) => true,
                (DeviceType::Output, DeviceType::Output) => true,
                (DeviceType::Encoder, DeviceType::Encoder) => true,
                (DeviceType::Decoder, DeviceType::Decoder) => true,
                (DeviceType::Isp, DeviceType::Isp) => true,
                (DeviceType::M2m, DeviceType::M2m) => true,
                (DeviceType::Unknown, DeviceType::Unknown) => true,
                _ => false,
            };
            let format_matches = match t {
                DeviceType::Decoder => has_fourcc(d.output_formats(), code),
                _ => has_fourcc(d.capture_formats(), code),
            };
            if type_matches && format_matches {
                proof {
                    assert(spec_device_matches(#[trigger] devices@[i as int], t, code@));
                }
                return Some(d.path().to_owned());
            }
            i = i + 1;
        }
        None
    }

    /// Finds an encoder that can produce the given compressed format among
    /// the scanned devices, and returns its path.
    pub fn find_encoder(devices: &Vec<Device>, codec: &[u8; 4]) -> (r: Option<String>)
        ensures
            r is Some <==> exists|i: int|
                0 <= i < devices@.len() && spec_device_matches(
                    #[trigger] devices@[i],
                    DeviceType::Encoder,
                    codec@,
                ),
            r matches Some(p) ==> exists|i: int|
                {
                    &&& 0 <= i < devices@.len()
                    &&& spec_device_matches(#[trigger] devices@[i], DeviceType::Encoder, codec@)
                    &&& p@ == devices@[i].path_spec()
                },
    {
        Self::find_typed(devices, DeviceType::Encoder, codec)
    }

    /// Finds a decoder that accepts the given compressed format among the
    /// scanned devices, and returns its path.
    pub fn find_decoder(devices: &Vec<Device>, codec: &[u8; 4]) -> (r: Option<String>)
        ensures
            r is Some <==> exists|i: int|
                0 <= i < devices@.len() && spec_device_matches(
                    #[trigger] devices@[i],
                    DeviceType::Decoder,
                    codec@,
                ),
            r matches Some(p) ==> exists|i: int|
                {
                    &&& 0 <= i < devices@.len()
                    &&& spec_device_matches(#[trigger] devices@[i], DeviceType::Decoder, codec@)
                    &&& p@ == devices@[i].path_spec()
                },
    {
        Self::find_typed(devices, DeviceType::Decoder, codec)
    }

    /// Finds a camera that produces the given pixel format among the
    /// scanned devices, and returns its path.
    pub fn find_camera(devices: &Vec<Device>, format: &[u8; 4]) -> (r: Option<String>)
        ensures
            r is Some <==> exists|i: int|
                0 <= i < devices@.len() && spec_device_matches(
                    #[trigger] devices@[i],
                    DeviceType::Camera,
                    format@,
                ),
            r matches Some(p) ==> exists|i: int|
                {
                    &&& 0 <= i < devices@.len()
                    &&& spec_device_matches(#[trigger] devices@[i], DeviceType::Camera, format@)
                    &&& p@ == devices@[i].path_spec()
                },
    {
        Self::find_typed(devices, DeviceType::Camera, format)
    }
}

} // verus!
