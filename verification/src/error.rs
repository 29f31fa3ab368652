//! Command-line-facing errors with their process exit codes.
//!
//! Tools built on the library map error kinds to distinct exit codes so
//! scripts can tell invalid arguments from missing devices, absent encode
//! hardware, socket failures and timeouts.

use vstd::prelude::*;

use crate::{Error, IoErrorKind};

verus! {

/// A command-line error, carrying a human-readable message.
#[derive(Debug)]
pub enum CliError {
    /// Invalid command-line arguments.
    InvalidArgs(String),
    /// Camera device not found or inaccessible.
    CameraNotFound(String),
    /// Encoder or decoder hardware not available.
    EncoderUnavailable(String),
    /// Socket failure: connection, binding, or a broken peer.
    SocketError(String),
    /// The operation timed out.
    Timeout(String),
    /// Any other failure.
    General(String),
}

impl CliError {
    /// The process exit code for this error: invalid arguments 2, missing
    /// device 3, missing hardware 4, socket failure 5, timeout 6, anything
    /// else 1.
    pub fn exit_code(&self) -> (r: u8)
        ensures
            self is InvalidArgs ==> r == 2,
            self is CameraNotFound ==> r == 3,
            self is EncoderUnavailable ==> r == 4,
            self is SocketError ==> r == 5,
            self is Timeout ==> r == 6,
            self is General ==> r == 1,
    {
        match self {
            CliError::InvalidArgs(_) => 2,
            CliError::CameraNotFound(_) => 3,
            CliError::EncoderUnavailable(_) => 4,
            CliError::SocketError(_) => 5,
            CliError::Timeout(_) => 6,
            CliError::General(_) => 1,
        }
    }

    /// The error as one line of text: its category, a colon, and the
    /// message.
    pub fn message(&self) -> (r: String)
        ensures
            self matches CliError::InvalidArgs(m) ==> r@ == "Invalid arguments: "@ + m@,
            self matches CliError::CameraNotFound(m) ==> r@ == "Camera not found: "@ + m@,
            self matches CliError::EncoderUnavailable(m) ==> r@ == "Encoder/decoder unavailable: "@
                + m@,
            self matches CliError::SocketError(m) ==> r@ == "Socket error: "@ + m@,
            self matches CliError::Timeout(m) ==> r@ == "Timeout: "@ + m@,
            self matches CliError::General(m) ==> r@ == "Error: "@ + m@,
    {
        let mut s = String::new();
        match self {
            CliError::InvalidArgs(m) => {
                crate::text::push_str(&mut s, "Invalid arguments: ");
                crate::text::push_str(&mut s, m.as_str());
            },
            CliError::CameraNotFound(m) => {
                crate::text::push_str(&mut s, "Camera not found: ");
                crate::text::push_str(&mut s, m.as_str());
            },
            CliError::EncoderUnavailable(m) => {
                crate::text::push_str(&mut s, "Encoder/decoder unavailable: ");
                crate::text::push_str(&mut s, m.as_str());
            },
            CliError::SocketError(m) => {
                crate::text::push_str(&mut s, "Socket error: ");
                crate::text::push_str(&mut s, m.as_str());
            },
            CliError::Timeout(m) => {
                crate::text::push_str(&mut s, "Timeout: ");
                crate::text::push_str(&mut s, m.as_str());
            },
            CliError::General(m) => {
                crate::text::push_str(&mut s, "Error: ");
                crate::text::push_str(&mut s, m.as_str());
            },
        }
        proof {
            assert(self matches CliError::InvalidArgs(m) ==> s@ =~= "Invalid arguments: "@ + m@);
            assert(self matches CliError::CameraNotFound(m) ==> s@ =~= "Camera not found: "@
                + m@);
            assert(self matches CliError::EncoderUnavailable(m) ==> s@
                =~= "Encoder/decoder unavailable: "@ + m@);
            assert(self matches CliError::SocketError(m) ==> s@ =~= "Socket error: "@ + m@);
            assert(self matches CliError::Timeout(m) ==> s@ =~= "Timeout: "@ + m@);
            assert(self matches CliError::General(m) ==> s@ =~= "Error: "@ + m@);
        }
        s
    }

    /// Classifies a library error for the command line, so each error kind
    /// maps to its exit code: missing symbols and absent hardware report
    /// the codec as unavailable; a missing device or denied access reports
    /// the camera as not found; timeouts and socket failures keep their
    /// kinds; everything else is general.
    pub fn from_error(e: &Error) -> (r: CliError)
        ensures
            e is SymbolNotFound ==> (r matches CliError::EncoderUnavailable(m) && m@
                == "Symbol not found"@),
            e is HardwareNotAvailable ==> (r matches CliError::EncoderUnavailable(m) && m@
                == "Hardware not available"@),
            e == Error::Io(IoErrorKind::NotFound) ==> (r matches CliError::CameraNotFound(m)
                && m@ == "Device not found"@),
            e == Error::Io(IoErrorKind::PermissionDenied) ==> (r
                matches CliError::CameraNotFound(m) && m@ == "Permission denied"@),
            e == Error::Io(IoErrorKind::TimedOut) ==> (r matches CliError::Timeout(m) && m@
                == "Operation timed out"@),
            e == Error::Io(IoErrorKind::ConnectionRefused) || e == Error::Io(
                IoErrorKind::BrokenPipe,
            ) ==> (r matches CliError::SocketError(m) && m@ == "Socket error"@),
            e == Error::Io(IoErrorKind::WouldBlock) || e == Error::Io(IoErrorKind::InvalidInput)
                || e == Error::Io(IoErrorKind::Other) ==> (r matches CliError::General(m) && m@
                == "I/O error"@),
            e is NullPointer ==> (r matches CliError::General(m) && m@
                == "Unexpected null pointer"@),
            e is InvalidFormat ==> (r matches CliError::General(m) && m@ == "Invalid format"@),
    {
        match e {
            Error::SymbolNotFound => CliError::EncoderUnavailable("Symbol not found".to_owned()),
            Error::HardwareNotAvailable => CliError::EncoderUnavailable(
                "Hardware not available".to_owned(),
            ),
            Error::Io(IoErrorKind::NotFound) => CliError::CameraNotFound(
                "Device not found".to_owned(),
            ),
            Error::Io(IoErrorKind::PermissionDenied) => CliError::CameraNotFound(
                "Permission denied".to_owned(),
            ),
            Error::Io(IoErrorKind::TimedOut) => CliError::Timeout("Operation timed out".to_owned()),
            Error::Io(IoErrorKind::ConnectionRefused) => CliError::SocketError(
                "Socket error".to_owned(),
            ),
            Error::Io(IoErrorKind::BrokenPipe) => CliError::SocketError("Socket error".to_owned()),
            Error::Io(_) => CliError::General("I/O error".to_owned()),
            Error::NullPointer => CliError::General("Unexpected null pointer".to_owned()),
            Error::InvalidFormat => CliError::General("Invalid format".to_owned()),
        }
    }
}

} // verus!
