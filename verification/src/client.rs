//! The subscribing endpoint of the frame-sharing protocol.
//!
//! A [`Client`] connects to a host's socket path and receives the
//! descriptors the host broadcasts, oldest first.  The transport that reads
//! the socket hands each arriving descriptor to [`Client::deliver`];
//! [`Client::get_frame`] then turns the next descriptor into a [`Frame`]
//! that references the same backing memory the producer wrote.
//!
//! A client created with reconnection disabled fails immediately when no
//! host is listening; with reconnection enabled it keeps its state and waits
//! for the transport to re-establish the connection.

use vstd::prelude::*;

use crate::frame::{Frame, INVALID_HANDLE};
use crate::host::FrameDesc;
use crate::{Error, IoErrorKind};

verus! {

/// Whether a received descriptor is well formed: its metadata fits the
/// signed accessors and it names a real, non-empty memory region — or none.
pub open spec fn desc_wf(d: FrameDesc) -> bool {
    &&& d.width <= 0x7fffffff
    &&& d.height <= 0x7fffffff
    &&& d.stride <= 0x7fffffff
    &&& d.mem_size <= 0x7fffffff
    &&& d.handle >= -1
    &&& d.handle == -1 ==> d.mem_size == 0 && d.mem_offset == 0
    &&& d.handle >= 0 ==> d.mem_size > 0
}

/// The frame a well-formed descriptor describes.  The receiver's reference
/// is independent of the host's: it points at the same backing memory but
/// is released on its own.
pub open spec fn spec_frame_of_desc(d: FrameDesc) -> Frame {
    Frame {
        width: d.width,
        height: d.height,
        stride: d.stride,
        fourcc: d.fourcc,
        serial: d.serial,
        timestamp_ns: d.timestamp_ns,
        duration_ns: d.duration_ns,
        pts_ns: d.pts_ns,
        dts_ns: d.dts_ns,
        expires_ns: d.expires_ns,
        handle: d.handle,
        mem_size: d.mem_size,
        mem_offset: d.mem_offset,
        shm_path: None,
        locked: false,
    }
}

/// Whether a descriptor queue carries strictly increasing serial numbers —
/// the order a single host broadcasts in, which an in-order transport
/// preserves.
pub open spec fn spec_serials_increasing(descs: Seq<FrameDesc>) -> bool {
    forall|i: int, j: int|
        0 <= i < j < descs.len() ==> (#[trigger] descs[i]).serial < (#[trigger] descs[j]).serial
}

/// The subscribing endpoint: connection state, configured timeout, and the
/// descriptors that arrived but were not yet taken.
#[derive(Debug)]
pub struct Client {
    /// The socket path this client connects to.
    pub path: String,
    /// Whether the client reconnects transparently after a disconnect.
    pub reconnect: bool,
    /// Whether the connection is currently established.
    pub connected: bool,
    /// How long a wait for the next frame may block, in nanoseconds.
    pub timeout_ns: i64,
    /// Descriptors received and not yet taken, oldest first.
    pub inbox: Vec<FrameDesc>,
}

impl Client {
    /// Connects to the host listening at `path`.
    ///
    /// `host_listening` says whether a host currently accepts connections
    /// there.  With `reconnect` disabled and no host listening the call
    /// fails immediately with a connection-refused error — it never blocks.
    /// With `reconnect` enabled the client is created even without a host
    /// and connects once one appears.
    pub fn new(path: &str, reconnect: bool, host_listening: bool) -> (r: Result<Client, Error>)
        ensures
            r is Ok <==> (host_listening || reconnect),
            !host_listening && !reconnect ==> r == Err::<Client, Error>(
                Error::Io(IoErrorKind::ConnectionRefused),
            ),
            r matches Ok(c) ==> {
                &&& c.path@ == path@
                &&& c.reconnect == reconnect
                &&& c.connected == host_listening
                &&& c.timeout_ns == 0
                &&& c.inbox@.len() == 0
            },
    {
        if !host_listening && !reconnect {
            return Err(Error::Io(IoErrorKind::ConnectionRefused));
        }
        Ok(
            Client {
                path: path.to_owned(),
                reconnect,
                connected: host_listening,
                timeout_ns: 0,
                inbox: Vec::new(),
            },
        )
    }

    /// The socket path this client connects to.
    pub fn path(&self) -> (r: Result<String, Error>)
        ensures
            r matches Ok(p) && p@ == self.path@,
    {
        Ok(self.path.clone())
    }

    /// Configures how long a wait for the next frame may block.
    pub fn set_timeout(&mut self, timeout_ns: i64) -> (r: Result<(), Error>)
        ensures
            r == Ok::<(), Error>(()),
            *final(self) == (Client { timeout_ns, ..*old(self) }),
    {
        self.timeout_ns = timeout_ns;
        Ok(())
    }

    /// Hands an arriving broadcast descriptor to the client.  The transport
    /// calls this for each descriptor read from the socket, in arrival
    /// order, so the inbox keeps the host's publish order.
    pub fn deliver(&mut self, desc: FrameDesc)
        ensures
            *final(self) == (Client { inbox: final(self).inbox, ..*old(self) }),
            final(self).inbox@ =~= old(self).inbox@.push(desc),
            spec_serials_increasing(old(self).inbox@) && (forall|i: int|
                0 <= i < old(self).inbox@.len() ==> (#[trigger] old(self).inbox@[i]).serial
                    < desc.serial) ==> spec_serials_increasing(final(self).inbox@),
    {
        self.inbox.push(desc);
        proof {
            if spec_serials_increasing(old(self).inbox@) && (forall|i: int|
                0 <= i < old(self).inbox@.len() ==> (#[trigger] old(self).inbox@[i]).serial
                    < desc.serial) {
                assert forall|i: int, j: int|
                    0 <= i < j < self.inbox@.len() implies (#[trigger] self.inbox@[i]).serial < (
                #[trigger] self.inbox@[j]).serial by {
                    if j < self.inbox@.len() - 1 {
                        assert(self.inbox@[i] == old(self).inbox@[i] && self.inbox@[j] == old(
                            self,
                        ).inbox@[j]);
                    } else {
                        assert(self.inbox@[i] == old(self).inbox@[i] && self.inbox@[j] == desc);
                    }
                }
            }
        }
    }

    /// Marks the connection as re-established.  The transport calls this
    /// when, with reconnection enabled, it has connected to a host again.
    pub fn reconnected(&mut self)
        ensures
            *final(self) == (Client { connected: true, ..*old(self) }),
    {
        self.connected = true;
    }

    /// Takes the next received frame.
    ///
    /// Returns the oldest delivered descriptor as a [`Frame`] the caller
    /// now owns independently of the host.  Without a connection and with
    /// reconnection disabled the call is refused; with an empty inbox it
    /// reports a timeout, the signal to wait and retry until the absolute
    /// deadline `until` — the engine itself never blocks.  A malformed
    /// descriptor is consumed and reported as a null-reference error.
    ///
    /// Serial order: on a queue whose serials rise strictly — what a host's
    /// broadcasts give an in-order transport — the queue stays in order and
    /// every frame still queued carries a larger serial than the one taken,
    /// so one connection observes strictly increasing serial numbers.
    pub fn get_frame(&mut self, until: i64) -> (r: Result<Frame, Error>)
        ensures
            final(self).path@ == old(self).path@,
            final(self).reconnect == old(self).reconnect,
            final(self).connected == old(self).connected,
            final(self).timeout_ns == old(self).timeout_ns,
            !old(self).connected && !old(self).reconnect ==> r == Err::<Frame, Error>(
                Error::Io(IoErrorKind::ConnectionRefused),
            ) && *final(self) == *old(self),
            (old(self).connected || old(self).reconnect) && old(self).inbox@.len() == 0 ==> r
                == Err::<Frame, Error>(Error::Io(IoErrorKind::TimedOut)) && *final(self) == *old(
                self,
            ),
            (old(self).connected || old(self).reconnect) && old(self).inbox@.len() > 0 ==> {
                &&& final(self).inbox@ =~= old(self).inbox@.skip(1)
                &&& (desc_wf(old(self).inbox@[0]) ==> r == Ok::<Frame, Error>(
                    spec_frame_of_desc(old(self).inbox@[0]),
                ))
                &&& (!desc_wf(old(self).inbox@[0]) ==> r == Err::<Frame, Error>(
                    Error::NullPointer,
                ))
            },
            r matches Ok(f) ==> f.inv() && !f.locked,
            spec_serials_increasing(old(self).inbox@) ==> spec_serials_increasing(
                final(self).inbox@,
            ),
            spec_serials_increasing(old(self).inbox@) ==> (r matches Ok(f) ==> forall|i: int|
                0 <= i < final(self).inbox@.len() ==> f.serial < (#[trigger] final(self).inbox@[i]).serial),
    {
        proof {
            if spec_serials_increasing(old(self).inbox@) && old(self).inbox@.len() > 0 {
                assert forall|i: int, j: int|
                    0 <= i < j < old(self).inbox@.skip(1).len() implies (#[trigger] old(
                    self,
                ).inbox@.skip(1)[i]).serial < (#[trigger] old(self).inbox@.skip(1)[j]).serial by {
                    assert(old(self).inbox@.skip(1)[i] == old(self).inbox@[i + 1] && old(
                        self,
                    ).inbox@.skip(1)[j] == old(self).inbox@[j + 1]);
                }
                assert forall|i: int|
                    0 <= i < old(self).inbox@.skip(1).len() implies old(self).inbox@[0].serial < (
                #[trigger] old(self).inbox@.skip(1)[i]).serial by {
                    assert(old(self).inbox@.skip(1)[i] == old(self).inbox@[i + 1]);
                }
            }
        }
        let _ = until;
        if !self.connected && !self.reconnect {
            return Err(Error::Io(IoErrorKind::ConnectionRefused));
        }
        if self.inbox.len() == 0 {
            return Err(Error::Io(IoErrorKind::TimedOut));
        }
        let d = self.inbox.remove(0);
        if !(d.width <= 0x7fffffff && d.height <= 0x7fffffff && d.stride <= 0x7fffffff
            && d.mem_size <= 0x7fffffff && d.handle >= INVALID_HANDLE) {
            return Err(Error::NullPointer);
        }
        if d.handle == INVALID_HANDLE && !(d.mem_size == 0 && d.mem_offset == 0) {
            return Err(Error::NullPointer);
        }
        if d.handle >= 0 && d.mem_size == 0 {
            return Err(Error::NullPointer);
        }
        Ok(
            Frame {
                width: d.width,
                height: d.height,
                stride: d.stride,
                fourcc: d.fourcc,
                serial: d.serial,
                timestamp_ns: d.timestamp_ns,
                duration_ns: d.duration_ns,
                pts_ns: d.pts_ns,
                dts_ns: d.dts_ns,
                expires_ns: d.expires_ns,
                handle: d.handle,
                mem_size: d.mem_size,
                mem_offset: d.mem_offset,
                shm_path: None,
                locked: false,
            },
        )
    }

    /// Closes the connection.  With reconnection enabled a later wait for a
    /// frame resumes once the transport reports the connection back;
    /// without it, later waits are refused.
    pub fn disconnect(&mut self) -> (r: Result<(), Error>)
        ensures
            r == Ok::<(), Error>(()),
            *final(self) == (Client { connected: false, ..*old(self) }),
    {
        self.connected = false;
        Ok(())
    }

    /// Releases the client's resources.  They are owned by the value and
    /// freed when it is dropped, so there is nothing further to do.
    pub fn release(&self) -> (r: Result<(), Error>)
        ensures
            r == Ok::<(), Error>(()),
    {
        Ok(())
    }
}

} // verus!
