//! Frames and their backing memory.
//!
//! A [`Frame`] is the transportable unit of video data: metadata (dimensions,
//! pixel format, timestamps, serial number) plus a reference to backing
//! memory.  Backing memory lives outside any single frame — several frames,
//! possibly in several processes, can map the same bytes.  That shared store
//! is modelled by [`MemoryPool`]: a pool of numbered segments standing for
//! the DMA-buffer / shared-memory space the platform provides.  A frame holds
//! a segment handle, an offset and a size; mapping a frame reads the segment,
//! so two frames attached to the same handle observe the same bytes.
//!
//! Locking is advisory: [`Frame::trylock`] never blocks and fails if the
//! frame is already locked; [`Frame::unlock`] must pair with it one to one.

use vstd::prelude::*;

use crate::{Error, IoErrorKind};
use vstd::string::StringSliceAdditionalSpecFns;

verus! {

/// "YUYV": YUV 4:2:2 packed, two bytes per pixel.
pub const FOURCC_YUYV: u32 = 0x56595559;

/// "UYVY": YUV 4:2:2 packed, two bytes per pixel.
pub const FOURCC_UYVY: u32 = 0x59565955;

/// "NV12": YUV 4:2:0 semi-planar, twelve bits per pixel.
pub const FOURCC_NV12: u32 = 0x3231564e;

/// "NV21": YUV 4:2:0 semi-planar, twelve bits per pixel.
pub const FOURCC_NV21: u32 = 0x3132564e;

/// "RGB3": packed 24-bit RGB.
pub const FOURCC_RGB3: u32 = 0x33424752;

/// "BGR3": packed 24-bit BGR.
pub const FOURCC_BGR3: u32 = 0x33524742;

/// "RGBA": packed 32-bit RGB with alpha.
pub const FOURCC_RGBA: u32 = 0x41424752;

/// "BGRA": packed 32-bit BGR with alpha.
pub const FOURCC_BGRA: u32 = 0x41524742;

/// "GREY": single luma plane, one byte per pixel.
pub const FOURCC_GREY: u32 = 0x59455247;

/// The handle value of a frame without backing memory.
pub const INVALID_HANDLE: i32 = -1;

/// Rectangle region of a frame, used to describe crops.
#[derive(Debug, Clone, Copy, PartialEq, Eq, Hash, Structural)]
pub struct Rect {
    /// The left-most pixel offset for the rectangle.
    pub x: i32,
    /// The top-most pixel offset for the rectangle.
    pub y: i32,
    /// The width in pixels of the rectangle.
    pub width: i32,
    /// The height in pixels of the rectangle.
    pub height: i32,
}

impl Rect {
    /// Creates a new rectangle region.
    pub fn new(x: i32, y: i32, width: i32, height: i32) -> (r: Rect)
        ensures
            r == (Rect { x, y, width, height }),
    {
        Rect { x, y, width, height }
    }

    /// Renders the rectangle as text, e.g. `Rect(10, 20, 100x200)`.
    pub fn display(&self) -> (r: String)
        ensures
            r@ == "Rect("@ + crate::text::spec_dec_signed(self.x as int) + ", "@
                + crate::text::spec_dec_signed(self.y as int) + ", "@ + crate::text::spec_dec_signed(
                self.width as int,
            ) + "x"@ + crate::text::spec_dec_signed(self.height as int) + ")"@,
    {
        let mut s = String::new();
        crate::text::push_str(&mut s, "Rect(");
        crate::text::push_dec_i64(&mut s, self.x as i64);
        crate::text::push_str(&mut s, ", ");
        crate::text::push_dec_i64(&mut s, self.y as i64);
        crate::text::push_str(&mut s, ", ");
        crate::text::push_dec_i64(&mut s, self.width as i64);
        crate::text::push_str(&mut s, "x");
        crate::text::push_dec_i64(&mut s, self.height as i64);
        crate::text::push_str(&mut s, ")");
        proof {
            assert(s@ =~= Seq::<char>::empty() + "Rect("@ + crate::text::spec_dec_signed(
                self.x as int,
            ) + ", "@ + crate::text::spec_dec_signed(self.y as int) + ", "@
                + crate::text::spec_dec_signed(self.width as int) + "x"@
                + crate::text::spec_dec_signed(self.height as int) + ")"@);
        }
        s
    }
}

impl Default for Rect {
    /// The zero rectangle.
    fn default() -> (r: Rect)
        ensures
            r == (Rect { x: 0, y: 0, width: 0, height: 0 }),
    {
        Rect { x: 0, y: 0, width: 0, height: 0 }
    }
}

impl From<(i32, i32, i32, i32)> for Rect {
    fn from(t: (i32, i32, i32, i32)) -> (r: Rect) {
        Rect { x: t.0, y: t.1, width: t.2, height: t.3 }
    }
}

impl vstd::std_specs::convert::FromSpecImpl<(i32, i32, i32, i32)> for Rect {
    open spec fn obeys_from_spec() -> bool {
        true
    }

    open spec fn from_spec(t: (i32, i32, i32, i32)) -> Rect {
        Rect { x: t.0, y: t.1, width: t.2, height: t.3 }
    }
}

impl From<Rect> for (i32, i32, i32, i32) {
    fn from(r: Rect) -> (t: (i32, i32, i32, i32)) {
        (r.x, r.y, r.width, r.height)
    }
}

impl vstd::std_specs::convert::FromSpecImpl<Rect> for (i32, i32, i32, i32) {
    open spec fn obeys_from_spec() -> bool {
        true
    }

    open spec fn from_spec(r: Rect) -> (i32, i32, i32, i32) {
        (r.x, r.y, r.width, r.height)
    }
}

/// The pool of backing-memory segments frames allocate from or attach to.
///
/// It stands for the platform's shared buffer space (DMA heaps, POSIX shared
/// memory): segments are numbered by non-negative handles, every frame that
/// holds a handle reads and writes the same segment, and a segment outlives
/// the frames that reference it.
pub struct MemoryPool {
    segments: Vec<Vec<u8>>,
}

impl View for MemoryPool {
    type V = Seq<Seq<u8>>;

    closed spec fn view(&self) -> Seq<Seq<u8>> {
        Seq::new(self.segments@.len(), |i: int| self.segments@[i]@)
    }
}

impl MemoryPool {
    /// An empty pool.
    pub fn new() -> (r: MemoryPool)
        ensures
            r@.len() == 0,
    {
        MemoryPool { segments: Vec::new() }
    }

    /// How many segments exist.
    pub fn count(&self) -> (r: usize)
        ensures
            r == self@.len(),
    {
        self.segments.len()
    }

    /// Whether `handle` names a segment of this pool.
    pub fn has(&self, handle: i32) -> (r: bool)
        ensures
            r == (0 <= handle && (handle as int) < self@.len()),
    {
        handle >= 0 && (handle as usize) < self.segments.len()
    }

    /// Creates a zero-filled segment of `size` bytes and returns its handle.
    pub fn create(&mut self, size: usize) -> (h: i32)
        requires
            old(self)@.len() < 0x7fffffff,
        ensures
            h as int == old(self)@.len(),
            final(self)@ =~~= old(self)@.push(Seq::new(size as nat, |i: int| 0u8)),
    {
        let h = self.segments.len() as i32;
        let seg: Vec<u8> = vec![0u8; size];
        self.segments.push(seg);
        proof {
            assert(self@ =~~= old(self)@.push(Seq::new(size as nat, |i: int| 0u8)));
        }
        h
    }

    /// The size in bytes of a segment.
    pub fn segment_size(&self, handle: i32) -> (r: usize)
        requires
            0 <= handle && (handle as int) < self@.len(),
        ensures
            r == self@[handle as int].len(),
    {
        self.segments[handle as usize].len()
    }

    /// Borrows a whole segment.
    pub fn segment(&self, handle: i32) -> (r: &[u8])
        requires
            0 <= handle && (handle as int) < self@.len(),
        ensures
            r@ == self@[handle as int],
    {
        self.segments[handle as usize].as_slice()
    }

    /// Overwrites segment bytes starting at `pos` with `data`.
    pub fn write_at(&mut self, handle: i32, pos: usize, data: &[u8])
        requires
            0 <= handle && (handle as int) < old(self)@.len(),
            pos + data@.len() <= old(self)@[handle as int].len(),
        ensures
            final(self)@.len() == old(self)@.len(),
            final(self)@[handle as int] =~= old(self)@[handle as int].subrange(
                0,
                pos as int,
            ) + data@ + old(self)@[handle as int].skip(pos + data@.len()),
            forall|j: int|
                0 <= j < old(self)@.len() && j != handle ==> final(self)@[j] == old(self)@[j],
    {
        let seg = &mut self.segments[handle as usize];
        let seg_len: usize = seg.len();
        let mut i: usize = 0;
        while i < data.len()
            invariant
                0 <= handle && (handle as int) < old(self)@.len(),
                pos + data@.len() <= seg_len,
                i <= data@.len(),
                seg@.len() == seg_len,
                seg_len == old(self)@[handle as int].len(),
                seg@ =~= old(self)@[handle as int].subrange(0, pos as int) + data@.subrange(
                    0,
                    i as int,
                ) + old(self)@[handle as int].skip(pos + i),
            decreases data@.len() - i,
        {
            seg[pos + i] = data[i];
            proof {
                assert(seg@ =~= old(self)@[handle as int].subrange(0, pos as int) + data@.subrange(
                    0,
                    i + 1,
                ) + old(self)@[handle as int].skip(pos + i + 1));
            }
            i = i + 1;
        }
        proof {
            assert(data@.subrange(0, data@.len() as int) =~= data@);
        }
    }
}

/// The byte size one frame of the given format and dimensions occupies.
///
/// Packed formats take a fixed number of bytes per pixel; the semi-planar
/// 4:2:0 formats take one and a half; a format this library does not know is
/// treated as two bytes per pixel.
pub open spec fn spec_frame_bytes(fourcc: u32, width: nat, height: nat) -> nat {
    let px = width * height;
    if fourcc == FOURCC_NV12 || fourcc == FOURCC_NV21 {
        px * 3 / 2
    } else if fourcc == FOURCC_RGB3 || fourcc == FOURCC_BGR3 {
        px * 3
    } else if fourcc == FOURCC_RGBA || fourcc == FOURCC_BGRA {
        px * 4
    } else if fourcc == FOURCC_GREY {
        px
    } else {
        px * 2
    }
}

/// The packed row pitch of the given format and width: the bytes one row
/// of samples occupies with no alignment padding.  The semi-planar 4:2:0
/// formats and the single-plane luma format pitch by width; packed formats
/// pitch by width times their bytes per pixel.
pub open spec fn spec_row_bytes(fourcc: u32, width: nat) -> nat {
    if fourcc == FOURCC_NV12 || fourcc == FOURCC_NV21 || fourcc == FOURCC_GREY {
        width
    } else if fourcc == FOURCC_RGB3 || fourcc == FOURCC_BGR3 {
        width * 3
    } else if fourcc == FOURCC_RGBA || fourcc == FOURCC_BGRA {
        width * 4
    } else {
        width * 2
    }
}

/// A video frame: metadata plus an optional reference into a [`MemoryPool`].
#[derive(Debug)]
pub struct Frame {
    /// Width in pixels.
    pub width: u32,
    /// Height in pixels.
    pub height: u32,
    /// Row pitch in bytes; may exceed the packed row size for alignment.
    pub stride: u32,
    /// Pixel or codec format as a little-endian FourCC value.
    pub fourcc: u32,
    /// Publish counter assigned by a host; 0 until posted.
    pub serial: i64,
    /// Capture timestamp in nanoseconds on the monotonic clock.
    pub timestamp_ns: i64,
    /// Display duration in nanoseconds; negative means unknown.
    pub duration_ns: i64,
    /// Presentation timestamp in nanoseconds; negative means unknown.
    pub pts_ns: i64,
    /// Decode timestamp in nanoseconds; negative means unknown.
    pub dts_ns: i64,
    /// Absolute expiration deadline in nanoseconds; hosts reclaim the frame
    /// once this is reached.
    pub expires_ns: i64,
    /// Backing-memory handle, or [`INVALID_HANDLE`] when none.
    pub handle: i32,
    /// Byte length of the backed region; 0 when none.
    pub mem_size: usize,
    /// Byte offset of the backed region inside its segment.
    pub mem_offset: usize,
    /// Path of the named shared-memory segment, when one was requested.
    pub shm_path: Option<String>,
    /// Whether the advisory lock is held.
    pub locked: bool,
}

impl Frame {
    /// Well-formedness: the handle is the invalid sentinel or a real one, a
    /// frame without a handle has no region, a backed region is non-empty,
    /// and all metadata fits the signed accessors.
    pub open spec fn inv(&self) -> bool {
        &&& self.handle >= -1
        &&& self.handle == -1 ==> self.mem_size == 0 && self.mem_offset == 0
        &&& self.handle >= 0 ==> self.mem_size > 0
        &&& self.mem_size <= 0x7fffffff
        &&& self.width <= 0x7fffffff
        &&& self.height <= 0x7fffffff
        &&& self.stride <= 0x7fffffff
    }

    /// Whether the frame's region lies inside the pool it is used with.
    pub open spec fn backed_by(&self, pool: &MemoryPool) -> bool {
        self.handle >= 0 ==> {
            &&& (self.handle as int) < pool@.len()
            &&& self.mem_offset + self.mem_size <= pool@[self.handle as int].len()
        }
    }

    /// The bytes a mapping of this frame observes.
    pub open spec fn mapped_bytes(&self, pool: &MemoryPool) -> Seq<u8> {
        pool@[self.handle as int].subrange(
            self.mem_offset as int,
            self.mem_offset + self.mem_size,
        )
    }

    /// Constructs frame metadata without backing memory.
    ///
    /// The format string must hold exactly four bytes; any other length is an
    /// [`Error::InvalidFormat`].  Dimensions are not validated here — a zero
    /// dimension is rejected by allocation, not construction.
    pub fn new(width: u32, height: u32, stride: u32, fourcc_str: &str) -> (r: Result<Frame, Error>)
        requires
            width <= 0x7fffffff,
            height <= 0x7fffffff,
            stride <= 0x7fffffff,
        ensures
            r is Ok <==> fourcc_str.spec_bytes().len() == 4,
            vstd::string::is_ascii(fourcc_str) ==> (r is Ok <==> fourcc_str@.len() == 4),
            vstd::string::is_ascii(fourcc_str) && fourcc_str@.len() == 4 ==> (r matches Ok(f)
                && f.fourcc == crate::fourcc::fourcc_value(
                fourcc_str@.map_values(|c: char| c as u8),
            )),
            r matches Ok(f) ==> f == (Frame {
                width,
                height,
                stride,
                fourcc: crate::fourcc::fourcc_value(fourcc_str.spec_bytes()),
                serial: 0,
                timestamp_ns: 0,
                duration_ns: -1i64,
                pts_ns: -1i64,
                dts_ns: -1i64,
                expires_ns: 0,
                handle: INVALID_HANDLE,
                mem_size: 0,
                mem_offset: 0,
                shm_path: None,
                locked: false,
            }),
            r matches Ok(f) ==> f.inv(),
            r is Err ==> r == Err::<Frame, Error>(Error::InvalidFormat),
    {
        proof {
            broadcast use vstd::string::is_ascii_spec_bytes;

            if vstd::string::is_ascii(fourcc_str) {
                assert(fourcc_str.spec_bytes().len() == fourcc_str@.len());
            }
        }
        let b = fourcc_str.as_bytes();
        if b.len() != 4 {
            return Err(Error::InvalidFormat);
        }
        proof {
            if vstd::string::is_ascii(fourcc_str) {
                assert(fourcc_str.spec_bytes() =~= fourcc_str@.map_values(|c: char| c as u8));
            }
        }
        let fourcc = (b[0] as u32) | ((b[1] as u32) << 8) | ((b[2] as u32) << 16) | ((
        b[3] as u32) << 24);
        Ok(
            Frame {
                width,
                height,
                stride,
                fourcc,
                serial: 0,
                timestamp_ns: 0,
                duration_ns: -1,
                pts_ns: -1,
                dts_ns: -1,
                expires_ns: 0,
                handle: INVALID_HANDLE,
                mem_size: 0,
                mem_offset: 0,
                shm_path: None,
                locked: false,
            },
        )
    }

    /// The byte size this frame's format and dimensions require.
    pub open spec fn spec_alloc_size(&self) -> nat {
        spec_frame_bytes(self.fourcc, self.width as nat, self.height as nat)
    }

    /// Provisions backing memory for the frame from the pool.
    ///
    /// Fails when the frame already holds memory, when the computed size is
    /// zero (a zero dimension), or when it exceeds what a handle-based
    /// consumer can address.  On success the frame's handle names a fresh
    /// zero-filled segment and `path`, if given, is recorded as the segment's
    /// name.  A frame constructed with row pitch zero receives the packed
    /// row pitch of its format here; an explicit pitch is kept.
    pub fn allocate(&mut self, pool: &mut MemoryPool, path: Option<&str>) -> (r: Result<(), Error>)
        requires
            old(self).inv(),
            old(pool)@.len() < 0x7fffffff,
        ensures
            final(self).inv(),
            r is Ok <==> (old(self).handle == -1 && 0 < old(self).spec_alloc_size()
                <= 0x7fffffff),
            r is Err ==> *final(self) == *old(self) && final(pool)@ == old(pool)@,
            old(self).handle != -1 ==> r == Err::<(), Error>(Error::Io(IoErrorKind::InvalidInput)),
            old(self).handle == -1 && !(0 < old(self).spec_alloc_size() <= 0x7fffffff) ==> r
                == Err::<(), Error>(Error::Io(IoErrorKind::InvalidInput)),
            r is Ok ==> {
                &&& final(pool)@ =~= old(pool)@.push(
                    Seq::new(old(self).spec_alloc_size(), |i: int| 0u8),
                )
                &&& *final(self) == (Frame {
                    handle: old(pool)@.len() as i32,
                    mem_size: old(self).spec_alloc_size() as usize,
                    mem_offset: 0,
                    stride: final(self).stride,
                    shm_path: final(self).shm_path,
                    ..*old(self)
                })
                &&& final(self).stride == if old(self).stride == 0 {
                    spec_row_bytes(old(self).fourcc, old(self).width as nat)
                } else {
                    old(self).stride as nat
                }
                &&& final(self).backed_by(final(pool))
                &&& (path matches Some(p) ==> final(self).shm_path matches Some(q) && q@ == p@)
                &&& (path is None ==> final(self).shm_path is None)
            },
    {
        if self.handle != INVALID_HANDLE {
            return Err(Error::Io(IoErrorKind::InvalidInput));
        }
        assert((self.width as int) * (self.height as int) <= 0x7fffffff * 0x7fffffff)
            by (nonlinear_arith)
            requires
                self.width <= 0x7fffffff,
                self.height <= 0x7fffffff,
        ;
        let px = (self.width as u64) * (self.height as u64);
        let sz: u64 = if self.fourcc == FOURCC_NV12 || self.fourcc == FOURCC_NV21 {
            px * 3 / 2
        } else if self.fourcc == FOURCC_RGB3 || self.fourcc == FOURCC_BGR3 {
            px * 3
        } else if self.fourcc == FOURCC_RGBA || self.fourcc == FOURCC_BGRA {
            px * 4
        } else if self.fourcc == FOURCC_GREY {
            px
        } else {
            px * 2
        };
        assert(sz as nat == self.spec_alloc_size());
        if sz == 0 || sz > 0x7fffffff {
            return Err(Error::Io(IoErrorKind::InvalidInput));
        }
        let row: u64 = if self.fourcc == FOURCC_NV12 || self.fourcc == FOURCC_NV21 || self.fourcc
            == FOURCC_GREY {
            self.width as u64
        } else if self.fourcc == FOURCC_RGB3 || self.fourcc == FOURCC_BGR3 {
            (self.width as u64) * 3
        } else if self.fourcc == FOURCC_RGBA || self.fourcc == FOURCC_BGRA {
            (self.width as u64) * 4
        } else {
            (self.width as u64) * 2
        };
        proof {
            let w = self.width as int;
            let h = self.height as int;
            let p = px as int;
            assert(w >= 1 && h >= 1 && w <= p) by (nonlinear_arith)
                requires
                    p == w * h,
                    w >= 0,
                    h >= 0,
                    p >= 1,
            ;
            assert(row as nat == spec_row_bytes(self.fourcc, self.width as nat));
            assert(row <= sz);
        }
        if self.stride == 0 {
            self.stride = row as u32;
        }
        let h = pool.create(sz as usize);
        self.handle = h;
        self.mem_size = sz as usize;
        self.mem_offset = 0;
        self.shm_path = match path {
            Some(p) => Some(p.to_owned()),
            None => None,
        };
        Ok(())
    }

    /// Attaches an existing segment to this frame without allocating.
    ///
    /// `fd` must name a segment of the pool; `size` 0 means the whole
    /// segment from `offset` on.  The frame does not copy the bytes — it
    /// references the same segment, so its mapping observes whatever the
    /// segment's other users wrote.
    pub fn attach(&mut self, fd: i32, size: usize, offset: usize, pool: &MemoryPool) -> (r: Result<
        (),
        Error,
    >)
        requires
            old(self).inv(),
        ensures
            final(self).inv(),
            r is Err ==> *final(self) == *old(self),
            r is Err ==> r == Err::<(), Error>(Error::Io(IoErrorKind::InvalidInput)),
            r is Ok <==> ({
                let resolved = if size == 0 {
                    pool@[fd as int].len() - offset
                } else {
                    size as int
                };
                &&& old(self).handle == -1
                &&& fd >= 0
                &&& (fd as int) < pool@.len()
                &&& offset + resolved <= pool@[fd as int].len()
                &&& 0 < resolved <= 0x7fffffff
            }),
            r is Ok ==> *final(self) == (Frame {
                handle: fd,
                mem_size: (if size == 0 {
                    pool@[fd as int].len() - offset
                } else {
                    size as int
                }) as usize,
                mem_offset: offset,
                ..*old(self)
            }) && final(self).backed_by(pool),
    {
        if self.handle != INVALID_HANDLE {
            return Err(Error::Io(IoErrorKind::InvalidInput));
        }
        if !pool.has(fd) {
            return Err(Error::Io(IoErrorKind::InvalidInput));
        }
        let seg_len = pool.segment_size(fd);
        if offset > seg_len {
            return Err(Error::Io(IoErrorKind::InvalidInput));
        }
        let resolved: usize = if size == 0 {
            seg_len - offset
        } else {
            size
        };
        if resolved == 0 || resolved > 0x7fffffff || resolved > seg_len - offset {
            return Err(Error::Io(IoErrorKind::InvalidInput));
        }
        self.handle = fd;
        self.mem_size = resolved;
        self.mem_offset = offset;
        Ok(())
    }

    /// Maps the frame's backing memory for reading.
    ///
    /// Fails with [`Error::NullPointer`] when the frame holds no memory.
    pub fn mmap<'a>(&self, pool: &'a MemoryPool) -> (r: Result<&'a [u8], Error>)
        requires
            self.inv(),
            self.backed_by(pool),
        ensures
            r is Ok <==> self.handle >= 0,
            r matches Ok(bytes) ==> bytes@ == self.mapped_bytes(pool),
            r is Err ==> r == Err::<&'a [u8], Error>(Error::NullPointer),
    {
        if self.handle == INVALID_HANDLE {
            return Err(Error::NullPointer);
        }
        let seg = pool.segment(self.handle);
        let seg_len: usize = seg.len();
        assert(self.mem_offset + self.mem_size <= seg_len);
        Ok(vstd::slice::slice_subrange(seg, self.mem_offset, self.mem_offset + self.mem_size))
    }

    /// Writes `data` into the frame's backing memory at `offset`.
    ///
    /// This is the writing counterpart of [`Frame::mmap`].  Fails with
    /// [`Error::NullPointer`] when the frame holds no memory and with an I/O
    /// error when the write would run past the frame's region.
    pub fn write(&self, pool: &mut MemoryPool, offset: usize, data: &[u8]) -> (r: Result<
        (),
        Error,
    >)
        requires
            self.inv(),
            self.backed_by(old(pool)),
        ensures
            final(pool)@.len() == old(pool)@.len(),
            self.backed_by(final(pool)),
            r is Err ==> final(pool)@ == old(pool)@,
            r is Ok <==> (self.handle >= 0 && offset + data@.len() <= self.mem_size),
            self.handle < 0 ==> r == Err::<(), Error>(Error::NullPointer),
            self.handle >= 0 && offset + data@.len() > self.mem_size ==> r == Err::<(), Error>(
                Error::Io(IoErrorKind::InvalidInput),
            ),
            r is Ok ==> {
                &&& self.mapped_bytes(final(pool)) =~= self.mapped_bytes(old(pool)).subrange(
                    0,
                    offset as int,
                ) + data@ + self.mapped_bytes(old(pool)).skip(offset + data@.len())
                &&& forall|j: int|
                    0 <= j < old(pool)@.len() && j != self.handle ==> final(pool)@[j] == old(
                        pool,
                    )@[j]
            },
    {
        if self.handle == INVALID_HANDLE {
            return Err(Error::NullPointer);
        }
        if data.len() > self.mem_size || offset > self.mem_size - data.len() {
            return Err(Error::Io(IoErrorKind::InvalidInput));
        }
        let seg_len: usize = pool.segment_size(self.handle);
        assert(self.mem_offset + offset <= seg_len);
        pool.write_at(self.handle, self.mem_offset + offset, data);
        proof {
            let h = self.handle as int;
            let o = self.mem_offset as int;
            let s = self.mem_size as int;
            assert(self.mapped_bytes(final(pool)) =~= self.mapped_bytes(old(pool)).subrange(
                0,
                offset as int,
            ) + data@ + self.mapped_bytes(old(pool)).skip(offset + data@.len()));
        }
        Ok(())
    }

    /// Releases the frame's reference to its backing memory.
    ///
    /// Afterwards the handle reads back as [`INVALID_HANDLE`]; the frame
    /// metadata survives.  Releasing a frame that holds no memory is a no-op.
    pub fn unalloc(&mut self) -> (r: Result<(), Error>)
        requires
            old(self).inv(),
        ensures
            final(self).inv(),
            r == Ok::<(), Error>(()),
            *final(self) == (Frame {
                handle: INVALID_HANDLE,
                mem_size: 0,
                mem_offset: 0,
                shm_path: final(self).shm_path,
                ..*old(self)
            }),
            final(self).shm_path is None,
    {
        self.handle = INVALID_HANDLE;
        self.mem_size = 0;
        self.mem_offset = 0;
        self.shm_path = None;
        Ok(())
    }

    /// Waits for the next frame a connected client received: takes the
    /// oldest delivered descriptor as an independently owned frame, exactly
    /// as [`crate::client::Client::get_frame`] does.
    pub fn wait(client: &mut crate::client::Client, until: i64) -> (r: Result<Frame, Error>)
        ensures
            final(client).path@ == old(client).path@,
            final(client).reconnect == old(client).reconnect,
            final(client).connected == old(client).connected,
            final(client).timeout_ns == old(client).timeout_ns,
            !old(client).connected && !old(client).reconnect ==> r == Err::<Frame, Error>(
                Error::Io(IoErrorKind::ConnectionRefused),
            ) && *final(client) == *old(client),
            (old(client).connected || old(client).reconnect) && old(client).inbox@.len() == 0
                ==> r == Err::<Frame, Error>(Error::Io(IoErrorKind::TimedOut)) && *final(client)
                == *old(client),
            (old(client).connected || old(client).reconnect) && old(client).inbox@.len() > 0
                ==> {
                &&& final(client).inbox@ =~= old(client).inbox@.skip(1)
                &&& (crate::client::desc_wf(old(client).inbox@[0]) ==> r == Ok::<Frame, Error>(
                    crate::client::spec_frame_of_desc(old(client).inbox@[0]),
                ))
                &&& (!crate::client::desc_wf(old(client).inbox@[0]) ==> r == Err::<Frame, Error>(
                    Error::NullPointer,
                ))
            },
            r matches Ok(f) ==> f.inv() && !f.locked,
            crate::client::spec_serials_increasing(old(client).inbox@)
                ==> crate::client::spec_serials_increasing(final(client).inbox@),
            crate::client::spec_serials_increasing(old(client).inbox@) ==> (r matches Ok(f)
                ==> forall|i: int|
                0 <= i < final(client).inbox@.len() ==> f.serial < (#[trigger] final(client).inbox@[i]).serial),
    {
        client.get_frame(until)
    }

    /// Attempts to take the advisory read lock without blocking.
    ///
    /// Fails immediately when the frame is already locked; never waits.
    pub fn trylock(&mut self) -> (r: Result<(), Error>)
        ensures
            *final(self) == spec_trylock(*old(self)).0,
            r == spec_trylock(*old(self)).1,
    {
        if self.locked {
            Err(Error::Io(IoErrorKind::WouldBlock))
        } else {
            self.locked = true;
            Ok(())
        }
    }

    /// Releases the advisory lock; must pair one to one with
    /// [`Frame::trylock`].
    pub fn unlock(&mut self) -> (r: Result<(), Error>)
        ensures
            *final(self) == spec_unlock(*old(self)).0,
            r == spec_unlock(*old(self)).1,
    {
        if self.locked {
            self.locked = false;
            Ok(())
        } else {
            Err(Error::Io(IoErrorKind::InvalidInput))
        }
    }

    /// Synchronizes caches around a hardware hand-off.
    ///
    /// In this build the memory model is coherent, so the call only checks
    /// that the frame holds memory to synchronize.
    pub fn sync(&self, for_device: bool, mode: i32) -> (r: Result<(), Error>)
        ensures
            r is Ok <==> self.handle != INVALID_HANDLE,
            r is Err ==> r == Err::<(), Error>(Error::NullPointer),
    {
        let _ = for_device;
        let _ = mode;
        if self.handle == INVALID_HANDLE {
            return Err(Error::NullPointer);
        }
        Ok(())
    }

    /// Unmaps the frame's memory.  Mappings made by [`Frame::mmap`] are
    /// borrows, so there is nothing to undo; the call always succeeds.
    pub fn munmap(&self) -> (r: Result<(), Error>)
        ensures
            r == Ok::<(), Error>(()),
    {
        Ok(())
    }

    /// The frame sequence number a host assigned at publish time.
    pub fn serial(&self) -> (r: Result<i64, Error>)
        ensures
            r == Ok::<i64, Error>(self.serial),
    {
        Ok(self.serial)
    }

    /// The capture timestamp in nanoseconds.
    pub fn timestamp(&self) -> (r: Result<i64, Error>)
        ensures
            r == Ok::<i64, Error>(self.timestamp_ns),
    {
        Ok(self.timestamp_ns)
    }

    /// The display duration in nanoseconds; negative means unknown.
    pub fn duration(&self) -> (r: Result<i64, Error>)
        ensures
            r == Ok::<i64, Error>(self.duration_ns),
    {
        Ok(self.duration_ns)
    }

    /// The presentation timestamp in nanoseconds; negative means unknown.
    pub fn pts(&self) -> (r: Result<i64, Error>)
        ensures
            r == Ok::<i64, Error>(self.pts_ns),
    {
        Ok(self.pts_ns)
    }

    /// The decode timestamp in nanoseconds; negative means unknown.
    pub fn dts(&self) -> (r: Result<i64, Error>)
        ensures
            r == Ok::<i64, Error>(self.dts_ns),
    {
        Ok(self.dts_ns)
    }

    /// The absolute expiration deadline in nanoseconds.
    pub fn expires(&self) -> (r: Result<i64, Error>)
        ensures
            r == Ok::<i64, Error>(self.expires_ns),
    {
        Ok(self.expires_ns)
    }

    /// The pixel format as its little-endian FourCC value.
    pub fn fourcc(&self) -> (r: Result<u32, Error>)
        ensures
            r == Ok::<u32, Error>(self.fourcc),
    {
        Ok(self.fourcc)
    }

    /// Width in pixels.
    pub fn width(&self) -> (r: Result<i32, Error>)
        requires
            self.inv(),
        ensures
            r == Ok::<i32, Error>(self.width as i32),
    {
        Ok(self.width as i32)
    }

    /// Height in pixels.
    pub fn height(&self) -> (r: Result<i32, Error>)
        requires
            self.inv(),
        ensures
            r == Ok::<i32, Error>(self.height as i32),
    {
        Ok(self.height as i32)
    }

    /// Byte length of the backed region; 0 before allocation.
    pub fn size(&self) -> (r: Result<i32, Error>)
        requires
            self.inv(),
        ensures
            r == Ok::<i32, Error>(self.mem_size as i32),
    {
        Ok(self.mem_size as i32)
    }

    /// Row pitch in bytes.
    pub fn stride(&self) -> (r: Result<i32, Error>)
        requires
            self.inv(),
        ensures
            r == Ok::<i32, Error>(self.stride as i32),
    {
        Ok(self.stride as i32)
    }

    /// The backing-memory handle, or [`INVALID_HANDLE`] when none.
    pub fn handle(&self) -> (r: Result<i32, Error>)
        ensures
            r == Ok::<i32, Error>(self.handle),
    {
        Ok(self.handle)
    }

    /// The physical address of the buffer, when the platform exposes one.
    /// Pool segments carry no physical address, so this is always `None`.
    pub fn paddr(&self) -> (r: Result<Option<isize>, Error>)
        ensures
            r == Ok::<Option<isize>, Error>(None::<isize>),
    {
        Ok(None)
    }

    /// The named shared-memory path backing the frame, when one was given to
    /// [`Frame::allocate`].
    pub fn path(&self) -> (r: Result<Option<String>, Error>)
        ensures
            r matches Ok(p),
            self.shm_path is None <==> (r matches Ok(p) && p is None),
            self.shm_path matches Some(q) ==> (r matches Ok(p) && p matches Some(t) && t@ == q@),
    {
        match &self.shm_path {
            Some(p) => Ok(Some(p.clone())),
            None => Ok(None),
        }
    }

    /// Copies this frame's bytes into `target`.
    ///
    /// This build carries no conversion or scaling hardware, so the two
    /// frames must share format and dimensions and no crop may be requested;
    /// anything else reports the hardware as unavailable.  Returns the number
    /// of bytes copied.  Only the target's region changes: every other pool
    /// segment keeps its bytes, the target's segment changes nowhere but the
    /// copied span, and the source is untouched when the two frames do not
    /// share a handle.
    pub fn copy_to(&self, target: &Frame, crop: Option<&Rect>, pool: &mut MemoryPool) -> (r:
        Result<i32, Error>)
        requires
            self.inv(),
            target.inv(),
            self.backed_by(old(pool)),
            target.backed_by(old(pool)),
        ensures
            final(pool)@.len() == old(pool)@.len(),
            r is Err ==> final(pool)@ == old(pool)@,
            self.handle < 0 || target.handle < 0 ==> r == Err::<i32, Error>(Error::NullPointer),
            self.handle >= 0 && target.handle >= 0 && (crop is Some || self.fourcc
                != target.fourcc || self.width != target.width || self.height != target.height)
                ==> r == Err::<i32, Error>(Error::HardwareNotAvailable),
            r is Ok <==> (self.handle >= 0 && target.handle >= 0 && crop is None && self.fourcc
                == target.fourcc && self.width == target.width && self.height == target.height),
            r matches Ok(n) ==> {
                let copied = vstd::math::min(self.mem_size as int, target.mem_size as int);
                &&& n == copied
                &&& target.mapped_bytes(final(pool)).subrange(0, copied) =~= self.mapped_bytes(
                    old(pool),
                ).subrange(0, copied)
                &&& final(pool)@[target.handle as int] =~= old(pool)@[
                    target.handle as int].subrange(0, target.mem_offset as int)
                    + self.mapped_bytes(old(pool)).subrange(0, copied) + old(pool)@[
                    target.handle as int].skip(target.mem_offset + copied)
                &&& forall|j: int|
                    0 <= j < old(pool)@.len() && j != target.handle ==> final(pool)@[j] == old(
                        pool,
                    )@[j]
                &&& self.handle != target.handle ==> self.mapped_bytes(final(pool))
                    == self.mapped_bytes(old(pool))
            },
    {
        if self.handle == INVALID_HANDLE || target.handle == INVALID_HANDLE {
            return Err(Error::NullPointer);
        }
        if crop.is_some() || self.fourcc != target.fourcc || self.width != target.width
            || self.height != target.height {
            return Err(Error::HardwareNotAvailable);
        }
        let copied: usize = if self.mem_size < target.mem_size {
            self.mem_size
        } else {
            target.mem_size
        };
        let src = pool.segment(self.handle);
        let src_len: usize = src.len();
        assert(self.mem_offset + copied <= src_len);
        let bytes = vstd::slice::slice_to_vec(
            vstd::slice::slice_subrange(src, self.mem_offset, self.mem_offset + copied),
        );
        let ghost before = *pool;
        pool.write_at(target.handle, target.mem_offset, bytes.as_slice());
        proof {
            assert(bytes@ =~= self.mapped_bytes(&before).subrange(0, copied as int));
            assert(target.mapped_bytes(final(pool)).subrange(0, copied as int)
                =~= self.mapped_bytes(&before).subrange(0, copied as int));
        }
        Ok(copied as i32)
    }
}

/// The outcome of [`Frame::trylock`] on a given frame state.
pub open spec fn spec_trylock(f: Frame) -> (Frame, Result<(), Error>) {
    if f.locked {
        (f, Err(Error::Io(IoErrorKind::WouldBlock)))
    } else {
        (Frame { locked: true, ..f }, Ok(()))
    }
}

/// The outcome of [`Frame::unlock`] on a given frame state.
pub open spec fn spec_unlock(f: Frame) -> (Frame, Result<(), Error>) {
    if f.locked {
        (Frame { locked: false, ..f }, Ok(()))
    } else {
        (f, Err(Error::Io(IoErrorKind::InvalidInput)))
    }
}

/// Lock mutual exclusion: on an unlocked frame the first `trylock` succeeds
/// and a second `trylock` without an intervening `unlock` fails — it neither
/// blocks nor silently succeeds, and leaves the lock state unchanged.
pub proof fn lemma_trylock_mutual_exclusion(f: Frame)
    requires
        !f.locked,
    ensures
        spec_trylock(f).1 == Ok::<(), Error>(()),
        spec_trylock(spec_trylock(f).0).1 == Err::<(), Error>(Error::Io(IoErrorKind::WouldBlock)),
        spec_trylock(spec_trylock(f).0).0 == spec_trylock(f).0,
        spec_trylock(spec_unlock(spec_trylock(f).0).0).1 == Ok::<(), Error>(()),
{
}

/// Allocated frames are observable: while a frame holds backing memory its
/// size is positive and its handle non-negative, and after release the
/// handle reads back as the invalid sentinel and the size as zero.
pub proof fn lemma_allocated_frame_observable(f: Frame)
    requires
        f.inv(),
        f.handle >= 0,
    ensures
        f.mem_size > 0,
        (Frame {
            handle: INVALID_HANDLE,
            mem_size: 0,
            mem_offset: 0,
            shm_path: None,
            ..f
        }).handle == INVALID_HANDLE,
{
}

/// Attach/memory equivalence: two frames attached to the same handle at the
/// same offset observe identical bytes for as many bytes as the smaller of
/// the two declared sizes.
pub proof fn lemma_attach_memory_equivalence(a: Frame, b: Frame, pool: MemoryPool)
    requires
        a.inv(),
        b.inv(),
        a.handle >= 0,
        b.handle == a.handle,
        b.mem_offset == a.mem_offset,
        a.backed_by(&pool),
        b.backed_by(&pool),
    ensures
        forall|i: int|
            0 <= i < vstd::math::min(a.mem_size as int, b.mem_size as int) ==> a.mapped_bytes(
                &pool,
            )[i] == b.mapped_bytes(&pool)[i],
{
}

} // verus!
