//! Zero-copy video-frame distribution for embedded Linux.
//!
//! A single [`host::Host`] publishes frames over a socket and any number of
//! [`client::Client`]s subscribe and receive them.  Frames reference backing
//! memory held in a shared [`frame::MemoryPool`], so receivers map the same
//! bytes the producer wrote instead of copying them.  The crate holds the
//! protocol and lifecycle engine: frame construction, allocation, attachment,
//! advisory locking, publish/expire bookkeeping on the host side, and the
//! subscription state on the client side.  Socket plumbing, camera capture and
//! hardware codecs live outside this crate and drive the engine through plain
//! values.

use vstd::prelude::*;

pub mod camera;
pub mod client;
pub mod decoder;
pub mod encoder;
pub mod error;
pub mod fourcc;
pub mod frame;
pub mod host;
pub mod metrics;
pub mod nal;
pub mod sps;
pub mod text;
pub mod utils;
pub mod v4l2;

verus! {

/// Classification of an I/O failure, mirroring the distinctions callers need
/// to choose between retrying and aborting.
#[derive(Debug, Clone, Copy, PartialEq, Eq, Structural)]
pub enum IoErrorKind {
    /// The target (device, socket path) does not exist.
    NotFound,
    /// The operation did not finish before its deadline.
    TimedOut,
    /// No peer is listening on the socket.
    ConnectionRefused,
    /// The peer went away mid-conversation.
    BrokenPipe,
    /// The caller may not access the resource.
    PermissionDenied,
    /// The operation would block; retry later.
    WouldBlock,
    /// An argument was rejected by the underlying layer.
    InvalidInput,
    /// Any other failure.
    Other,
}

/// Error type for library operations.
#[derive(Debug, Clone, Copy, PartialEq, Eq, Structural)]
pub enum Error {
    /// An I/O style failure, with its kind preserved so callers can pick a
    /// retry or abort policy.
    Io(IoErrorKind),
    /// An operation needed backing memory and the frame had none.
    NullPointer,
    /// A malformed four-character format code.
    InvalidFormat,
    /// A hardware codec entry point is not present in this build.
    SymbolNotFound,
    /// The hardware feature exists but the device is absent.
    HardwareNotAvailable,
}

/// Relies on std::time::SystemTime::now: the current time of the system
/// clock, reduced to whole nanoseconds since the UNIX epoch; 0 when the
/// clock reads earlier than the epoch.
#[verifier::external_body]
fn system_now_unix_ns() -> (r: u128) {
    match std::time::SystemTime::now().duration_since(std::time::UNIX_EPOCH) {
        Ok(d) => d.as_nanos(),
        Err(_) => 0,
    }
}

/// The current timestamp in nanoseconds, for computing expiration deadlines
/// and wait deadlines.  Never negative; saturates at the largest signed
/// value.  The reading comes from the system clock, the one absolute clock
/// the platform layer exposes here, so a clock step moves it; the engine
/// itself never reads a clock — every deadline comparison takes its `now`
/// as an argument, so callers that need steadier timing can bring their
/// own source.
pub fn timestamp() -> (r: Result<i64, Error>)
    ensures
        r matches Ok(t) && t >= 0,
{
    let n = system_now_unix_ns();
    if n > 0x7fffffffffffffff {
        Ok(i64::MAX)
    } else {
        Ok(n as i64)
    }
}

/// The library version, following semantic versioning.
pub fn version() -> (r: Result<String, Error>)
    ensures
        r matches Ok(v) && v@ == "2.0.0"@,
{
    Ok("2.0.0".to_owned())
}

} // verus!
