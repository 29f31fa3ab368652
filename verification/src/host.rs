//! The publishing endpoint of the frame-sharing protocol.
//!
//! A [`Host`] owns a socket path, accepts client connections, assigns each
//! published frame a strictly increasing serial number, broadcasts the
//! frame's descriptor to every connected client, and reclaims published
//! frames once their expiration deadline has passed.
//!
//! The host is driven explicitly: an incoming connection is announced with
//! [`Host::connect`], and [`Host::process`] must be called on every tick —
//! regardless of whether [`Host::poll`] reported activity — so that frames
//! expire even when no client is active.  The transport that carries
//! descriptors to the peer processes hands each client's queue on with
//! [`Host::take_outgoing`].

use vstd::prelude::*;

use crate::frame::Frame;
use crate::{Error, IoErrorKind};

verus! {

/// The wire-level description of one published frame: enough metadata for a
/// client to locate and interpret the same backing memory the producer
/// wrote.
#[derive(Debug, Clone, Copy, PartialEq, Eq, Structural)]
pub struct FrameDesc {
    /// Width in pixels.
    pub width: u32,
    /// Height in pixels.
    pub height: u32,
    /// Row pitch in bytes.
    pub stride: u32,
    /// Pixel or codec format as a little-endian FourCC value.
    pub fourcc: u32,
    /// Publish counter assigned by the host.
    pub serial: i64,
    /// Capture timestamp in nanoseconds.
    pub timestamp_ns: i64,
    /// Display duration in nanoseconds; negative means unknown.
    pub duration_ns: i64,
    /// Presentation timestamp in nanoseconds; negative means unknown.
    pub pts_ns: i64,
    /// Decode timestamp in nanoseconds; negative means unknown.
    pub dts_ns: i64,
    /// Absolute expiration deadline in nanoseconds.
    pub expires_ns: i64,
    /// Backing-memory handle the receiver attaches to.
    pub handle: i32,
    /// Byte length of the backed region.
    pub mem_size: usize,
    /// Byte offset of the backed region inside its segment.
    pub mem_offset: usize,
}

/// The descriptor a host broadcasts for a stamped frame.
pub open spec fn spec_desc_of(f: Frame) -> FrameDesc {
    FrameDesc {
        width: f.width,
        height: f.height,
        stride: f.stride,
        fourcc: f.fourcc,
        serial: f.serial,
        timestamp_ns: f.timestamp_ns,
        duration_ns: f.duration_ns,
        pts_ns: f.pts_ns,
        dts_ns: f.dts_ns,
        expires_ns: f.expires_ns,
        handle: f.handle,
        mem_size: f.mem_size,
        mem_offset: f.mem_offset,
    }
}

fn desc_of(f: &Frame) -> (d: FrameDesc)
    ensures
        d == spec_desc_of(*f),
{
    FrameDesc {
        width: f.width,
        height: f.height,
        stride: f.stride,
        fourcc: f.fourcc,
        serial: f.serial,
        timestamp_ns: f.timestamp_ns,
        duration_ns: f.duration_ns,
        pts_ns: f.pts_ns,
        dts_ns: f.dts_ns,
        expires_ns: f.expires_ns,
        handle: f.handle,
        mem_size: f.mem_size,
        mem_offset: f.mem_offset,
    }
}

/// One connected client: its socket descriptor and the descriptors
/// broadcast to it that the transport has not yet carried away.
#[derive(Debug)]
pub struct ClientConn {
    /// The client's socket descriptor.
    pub fd: i32,
    /// Broadcast descriptors waiting to be sent, oldest first.
    pub outbox: Vec<FrameDesc>,
}

/// Keeps published frames whose deadline has not passed at `now`.
pub open spec fn spec_unexpired(frames: Seq<Frame>, now: i64) -> Seq<Frame> {
    frames.filter(|f: Frame| f.expires_ns > now)
}

/// The publishing endpoint: owns the socket path, the set of published
/// frames with their deadlines, and the connected clients.
#[derive(Debug)]
pub struct Host {
    /// The socket path this host claims exclusively.
    pub path: String,
    /// The listening socket descriptor.
    pub listen_fd: i32,
    /// The next socket descriptor to hand to a connecting client.
    pub next_fd: i32,
    /// The serial number the next published frame receives.
    pub next_serial: i64,
    /// Currently published, unexpired frames, in publish order.
    pub published: Vec<Frame>,
    /// Connection requests not yet accepted by [`Host::process`].
    pub pending: Vec<i32>,
    /// Accepted clients, in accept order.
    pub clients: Vec<ClientConn>,
}

impl Host {
    /// Well-formedness: serials start at one and published frames carry
    /// strictly increasing serials below the counter, in publish order; the
    /// same holds inside every client's outbox; the listening socket is
    /// descriptor zero; client and pending descriptors are positive, rise
    /// strictly in accept order, stay below the descriptor counter — so no
    /// two are ever the same — and every pending descriptor is younger than
    /// every accepted one.
    pub open spec fn inv(&self) -> bool {
        &&& self.next_serial >= 1
        &&& 1 <= self.next_fd
        &&& self.listen_fd == 0
        &&& forall|i: int, j: int|
            0 <= i < j < self.clients@.len() ==> (#[trigger] self.clients@[i]).fd < (
            #[trigger] self.clients@[j]).fd
        &&& forall|i: int, j: int|
            0 <= i < j < self.pending@.len() ==> #[trigger] self.pending@[i]
                < #[trigger] self.pending@[j]
        &&& forall|c: int, p: int|
            0 <= c < self.clients@.len() && 0 <= p < self.pending@.len() ==> (
            #[trigger] self.clients@[c]).fd < #[trigger] self.pending@[p]
        &&& forall|c: int|
            0 <= c < self.clients@.len() ==> (#[trigger] self.clients@[c]).fd < self.next_fd
        &&& forall|p: int| 0 <= p < self.pending@.len() ==> #[trigger] self.pending@[p] < self.next_fd
        &&& forall|i: int|
            0 <= i < self.published@.len() ==> (#[trigger] self.published@[i]).inv()
        &&& forall|i: int|
            0 <= i < self.published@.len() ==> (#[trigger] self.published@[i]).serial
                < self.next_serial
        &&& forall|i: int, j: int|
            0 <= i < j < self.published@.len() ==> (#[trigger] self.published@[i]).serial < (
            #[trigger] self.published@[j]).serial
        &&& forall|c: int|
            0 <= c < self.clients@.len() ==> (#[trigger] self.clients@[c]).fd >= 1
        &&& forall|i: int| 0 <= i < self.pending@.len() ==> #[trigger] self.pending@[i] >= 1
        &&& forall|c: int, i: int|
            0 <= c < self.clients@.len() && 0 <= i < self.clients@[c].outbox@.len() ==> (
            #[trigger] self.clients@[c].outbox@[i]).serial < self.next_serial
        &&& forall|c: int, i: int, j: int|
            0 <= c < self.clients@.len() && 0 <= i < j < self.clients@[c].outbox@.len() ==> (
            #[trigger] self.clients@[c].outbox@[i]).serial < (
            #[trigger] self.clients@[c].outbox@[j]).serial
        &&& self.pending@.len() + self.clients@.len() < self.next_fd
    }

    /// Creates a host that claims the socket path and listens for clients.
    /// An empty path is rejected.
    pub fn new(path: &str) -> (r: Result<Host, Error>)
        ensures
            r is Ok <==> path@.len() != 0,
            r matches Ok(h) ==> {
                &&& h.inv()
                &&& h.path@ == path@
                &&& h.listen_fd == 0
                &&& h.next_fd == 1
                &&& h.next_serial == 1
                &&& h.published@.len() == 0
                &&& h.pending@.len() == 0
                &&& h.clients@.len() == 0
            },
            r is Err ==> r == Err::<Host, Error>(Error::Io(IoErrorKind::InvalidInput)),
    {
        if path.unicode_len() == 0 {
            return Err(Error::Io(IoErrorKind::InvalidInput));
        }
        Ok(
            Host {
                path: path.to_owned(),
                listen_fd: 0,
                next_fd: 1,
                next_serial: 1,
                published: Vec::new(),
                pending: Vec::new(),
                clients: Vec::new(),
            },
        )
    }

    /// The socket path this host listens on.
    pub fn path(&self) -> (r: Result<String, Error>)
        ensures
            r matches Ok(p) && p@ == self.path@,
    {
        Ok(self.path.clone())
    }

    /// How many frames the host currently tracks as published.
    pub fn published_count(&self) -> (r: usize)
        ensures
            r == self.published@.len(),
    {
        self.published.len()
    }

    /// Announces an incoming connection and returns the socket descriptor
    /// assigned to it.  The connection waits in the pending queue until the
    /// next [`Host::process`] accepts it.
    pub fn connect(&mut self) -> (r: Result<i32, Error>)
        requires
            old(self).inv(),
        ensures
            final(self).inv(),
            r is Ok <==> old(self).next_fd < 0x7fffffff,
            r is Err ==> *final(self) == *old(self) && r == Err::<i32, Error>(
                Error::Io(IoErrorKind::Other),
            ),
            r matches Ok(fd) ==> {
                &&& fd == old(self).next_fd
                &&& final(self).next_fd == old(self).next_fd + 1
                &&& final(self).pending@ =~= old(self).pending@.push(fd)
                &&& final(self).clients@ == old(self).clients@
                &&& final(self).published@ == old(self).published@
                &&& final(self).next_serial == old(self).next_serial
                &&& final(self).path@ == old(self).path@
                &&& final(self).listen_fd == old(self).listen_fd
            },
    {
        if self.next_fd >= 0x7fffffff {
            return Err(Error::Io(IoErrorKind::Other));
        }
        let fd = self.next_fd;
        self.next_fd = self.next_fd + 1;
        self.pending.push(fd);
        Ok(fd)
    }

    /// Polls for activity.
    ///
    /// The engine is driven explicitly, so readiness is exactly the number
    /// of connection requests waiting to be accepted; the call never blocks,
    /// whatever `wait` asks for.
    pub fn poll(&self, wait: i64) -> (r: Result<i32, Error>)
        requires
            self.inv(),
        ensures
            r == Ok::<i32, Error>(self.pending@.len() as i32),
    {
        let _ = wait;
        Ok(self.pending.len() as i32)
    }

    /// Performs one tick of host duties: expires published frames whose
    /// deadline has passed at `now_ns`, then accepts one pending connection
    /// if present.
    ///
    /// Call this on every tick, whether or not [`Host::poll`] reported
    /// activity; otherwise published frames are never reclaimed.
    #[verifier::loop_isolation(false)]
    pub fn process(&mut self, now_ns: i64) -> (r: Result<(), Error>)
        requires
            old(self).inv(),
        ensures
            final(self).inv(),
            r == Ok::<(), Error>(()),
            final(self).published@ =~= spec_unexpired(old(self).published@, now_ns),
            old(self).pending@.len() == 0 ==> final(self).pending@ == old(self).pending@ && final(self).clients@.len() == old(self).clients@.len(),
            old(self).pending@.len() > 0 ==> {
                &&& final(self).pending@ =~= old(self).pending@.skip(1)
                &&& final(self).clients@.len() == old(self).clients@.len() + 1
                &&& final(self).clients@.last().fd == old(self).pending@[0]
                &&& final(self).clients@.last().outbox@.len() == 0
            },
            forall|c: int|
                0 <= c < old(self).clients@.len() ==> (#[trigger] final(self).clients@[c]).fd
                    == old(self).clients@[c].fd && final(self).clients@[c].outbox@ == old(self).clients@[c].outbox@,
            final(self).next_serial == old(self).next_serial,
            final(self).next_fd == old(self).next_fd,
            final(self).path@ == old(self).path@,
            final(self).listen_fd == old(self).listen_fd,
    {
        let ghost orig = self.published@;
        let ghost pred = |f: Frame| f.expires_ns > now_ns;
        let mut olds: Vec<Frame> = Vec::new();
        core::mem::swap(&mut olds, &mut self.published);
        proof {
            assert(orig.subrange(0, 0).filter(pred) =~= Seq::<Frame>::empty());
        }
        let ghost total = olds@.len() as int;
        let ghost mut k: int = 0;
        while olds.len() > 0
            invariant
                0 <= k,
                k + olds@.len() == total,
                orig.len() == total,
                olds@ =~= orig.skip(k),
                self.published@ =~= orig.subrange(0, k).filter(pred),
                self.path == old(self).path,
                self.listen_fd == old(self).listen_fd,
                self.next_fd == old(self).next_fd,
                self.next_serial == old(self).next_serial,
                self.pending@ == old(self).pending@,
                self.clients == old(self).clients,
            decreases olds@.len(),
        {
            let f = olds.remove(0);
            proof {
                let prefix = orig.subrange(0, k);
                let next = orig.subrange(0, k + 1);
                assert(next.drop_last() =~= prefix);
                assert(next.last() == f);
                reveal_with_fuel(Seq::<Frame>::filter, 2);
                assert(next.filter(pred) =~= if pred(f) {
                    prefix.filter(pred).push(f)
                } else {
                    prefix.filter(pred)
                });
            }
            if f.expires_ns > now_ns {
                self.published.push(f);
            }
            proof {
                k = k + 1;
                assert(olds@ =~= orig.skip(k));
                assert(self.published@ =~= orig.subrange(0, k).filter(pred));
            }
        }
        proof {
            assert(orig.subrange(0, total) =~= orig);
        }
        if self.pending.len() > 0 {
            let fd = self.pending.remove(0);
            self.clients.push(ClientConn { fd, outbox: Vec::new() });
            proof {
                let ghost h = *self;
                let ghost o = *old(self);
                let last = h.clients@.len() - 1;
                assert forall|a: int, i: int, j: int|
                    0 <= a < h.clients@.len() && 0 <= i < j
                        < h.clients@[a].outbox@.len() implies (
                #[trigger] h.clients@[a].outbox@[i]).serial < (
                #[trigger] h.clients@[a].outbox@[j]).serial by {
                    if a < last {
                        assert(h.clients@[a] == o.clients@[a]);
                    } else {
                        assert(h.clients@[a].outbox@.len() == 0);
                    }
                }
                assert forall|a: int, i: int|
                    0 <= a < h.clients@.len() && 0 <= i < h.clients@[a].outbox@.len() implies (
                #[trigger] h.clients@[a].outbox@[i]).serial < h.next_serial by {
                    if a < last {
                        assert(h.clients@[a] == o.clients@[a]);
                    } else {
                        assert(h.clients@[a].outbox@.len() == 0);
                    }
                }
                assert forall|a: int| 0 <= a < h.clients@.len() implies (
                #[trigger] h.clients@[a]).fd >= 1 by {
                    if a < last {
                        assert(h.clients@[a] == o.clients@[a]);
                    } else {
                        assert(h.clients@[a].fd == o.pending@[0]);
                    }
                }
            }
        }
        proof {
            lemma_unexpired_sorted(orig, now_ns, self.next_serial);
        }
        Ok(())
    }

    /// Publishes a frame: the host takes ownership, stamps the frame with
    /// the next serial number and the given deadlines, stores it until it
    /// expires or is dropped, and broadcasts its descriptor to every
    /// connected client.  `duration`, `pts` and `dts` may be negative to
    /// mean unknown.  Fails only when the serial counter is exhausted.
    #[verifier::loop_isolation(false)]
    pub fn post(&mut self, frame: Frame, expires: i64, duration: i64, pts: i64, dts: i64) -> (r:
        Result<(), Error>)
        requires
            old(self).inv(),
            frame.inv(),
        ensures
            final(self).inv(),
            r is Ok <==> old(self).next_serial < 0x7fffffffffffffff,
            r is Err ==> *final(self) == *old(self) && r == Err::<(), Error>(
                Error::Io(IoErrorKind::Other),
            ),
            r is Ok ==> {
                let stamped = (Frame {
                    serial: old(self).next_serial,
                    expires_ns: expires,
                    duration_ns: duration,
                    pts_ns: pts,
                    dts_ns: dts,
                    ..frame
                });
                &&& final(self).published@ =~= old(self).published@.push(stamped)
                &&& final(self).next_serial == old(self).next_serial + 1
                &&& final(self).clients@.len() == old(self).clients@.len()
                &&& forall|c: int|
                    0 <= c < old(self).clients@.len() ==> (#[trigger] final(self).clients@[c]).fd
                        == old(self).clients@[c].fd && final(self).clients@[c].outbox@ =~= old(self).clients@[c].outbox@.push(spec_desc_of(stamped))
                &&& final(self).pending@ == old(self).pending@
                &&& final(self).next_fd == old(self).next_fd
                &&& final(self).path@ == old(self).path@
                &&& final(self).listen_fd == old(self).listen_fd
            },
    {
        if self.next_serial >= 0x7fffffffffffffff {
            return Err(Error::Io(IoErrorKind::Other));
        }
        let mut stamped = frame;
        stamped.serial = self.next_serial;
        stamped.expires_ns = expires;
        stamped.duration_ns = duration;
        stamped.pts_ns = pts;
        stamped.dts_ns = dts;
        self.next_serial = self.next_serial + 1;
        let desc = desc_of(&stamped);
        let n = self.clients.len();
        let mut c: usize = 0;
        while c < n
            invariant
                n == self.clients@.len(),
                c <= n,
                desc == spec_desc_of(stamped),
                stamped.serial == old(self).next_serial,
                forall|i: int|
                    0 <= i < n ==> (#[trigger] self.clients@[i]).fd == old(self).clients@[i].fd,
                forall|i: int|
                    0 <= i < c ==> (#[trigger] self.clients@[i]).outbox@ =~= old(
                        self,
                    ).clients@[i].outbox@.push(desc),
                forall|i: int|
                    c <= i < n ==> (#[trigger] self.clients@[i]).outbox@ == old(
                        self,
                    ).clients@[i].outbox@,
                self.path == old(self).path,
                self.listen_fd == old(self).listen_fd,
                self.next_fd == old(self).next_fd,
                self.next_serial == old(self).next_serial + 1,
                self.pending@ == old(self).pending@,
                self.published@ == old(self).published@,
            decreases n - c,
        {
            self.clients[c].outbox.push(desc);
            c = c + 1;
        }
        self.published.push(stamped);
        proof {
            let ghost h = *self;
            let ghost o = *old(self);
            assert forall|i: int, j: int|
                0 <= i < j < h.published@.len() implies (#[trigger] h.published@[i]).serial < (
            #[trigger] h.published@[j]).serial by {
                if j < h.published@.len() - 1 {
                    assert(h.published@[i] == o.published@[i] && h.published@[j]
                        == o.published@[j]);
                } else {
                    assert(h.published@[j] == stamped);
                    assert(h.published@[i] == o.published@[i]);
                }
            }
            assert forall|i: int| 0 <= i < h.published@.len() implies (
            #[trigger] h.published@[i]).inv() && h.published@[i].serial < h.next_serial by {
                if i < h.published@.len() - 1 {
                    assert(h.published@[i] == o.published@[i]);
                }
            }
            assert forall|a: int, i: int, j: int|
                0 <= a < h.clients@.len() && 0 <= i < j < h.clients@[a].outbox@.len() implies (
            #[trigger] h.clients@[a].outbox@[i]).serial < (
            #[trigger] h.clients@[a].outbox@[j]).serial by {
                assert(h.clients@[a].outbox@ =~= o.clients@[a].outbox@.push(desc));
                if j < h.clients@[a].outbox@.len() - 1 {
                    assert(h.clients@[a].outbox@[i] == o.clients@[a].outbox@[i]
                        && h.clients@[a].outbox@[j] == o.clients@[a].outbox@[j]);
                } else {
                    assert(h.clients@[a].outbox@[j] == desc);
                    assert(h.clients@[a].outbox@[i] == o.clients@[a].outbox@[i]);
                }
            }
            assert forall|a: int, i: int|
                0 <= a < h.clients@.len() && 0 <= i < h.clients@[a].outbox@.len() implies (
            #[trigger] h.clients@[a].outbox@[i]).serial < h.next_serial by {
                assert(h.clients@[a].outbox@ =~= o.clients@[a].outbox@.push(desc));
                if i < h.clients@[a].outbox@.len() - 1 {
                    assert(h.clients@[a].outbox@[i] == o.clients@[a].outbox@[i]);
                } else {
                    assert(h.clients@[a].outbox@[i] == desc);
                }
            }
        }
        Ok(())
    }

    /// Cancels a published frame before its natural expiration: removes the
    /// host's association and returns the frame, so ownership moves back to
    /// the caller.  Fails when no published frame carries `serial`.
    #[verifier::loop_isolation(false)]
    pub fn drop_frame(&mut self, serial: i64) -> (r: Result<Frame, Error>)
        requires
            old(self).inv(),
        ensures
            final(self).inv(),
            r is Ok <==> exists|i: int|
                0 <= i < old(self).published@.len() && (#[trigger] old(self).published@[i]).serial == serial,
            r is Err ==> *final(self) == *old(self) && r == Err::<Frame, Error>(
                Error::Io(IoErrorKind::NotFound),
            ),
            r matches Ok(f) ==> exists|i: int|
                {
                    &&& 0 <= i < old(self).published@.len()
                    &&& #[trigger] old(self).published@[i] == f
                    &&& f.serial == serial
                    &&& final(self).published@ =~= old(self).published@.subrange(0, i) + old(self).published@.skip(i + 1)
                },
            r matches Ok(f) ==> f.inv() && final(self).clients@ == old(self).clients@ && final(self).pending@ == old(self).pending@ && final(self).next_serial == old(self).next_serial
                && final(self).next_fd == old(self).next_fd && final(self).path@ == old(self).path@,
    {
        let n = self.published.len();
        let mut i: usize = 0;
        while i < n
            invariant
                old(self).inv(),
                *self == *old(self),
                n == self.published@.len(),
                i <= n,
                forall|j: int| 0 <= j < i ==> (#[trigger] self.published@[j]).serial != serial,
            decreases n - i,
        {
            if self.published[i].serial == serial {
                let f = self.published.remove(i);
                proof {
                    assert(old(self).published@[i as int] == f);
                    assert(final(self).published@ =~= old(self).published@.subrange(
                        0,
                        i as int,
                    ) + old(self).published@.skip(i as int + 1));
                    assert forall|a: int, b: int|
                        0 <= a < b < final(self).published@.len() implies (#[trigger] final(self).published@[a]).serial < (#[trigger] final(self).published@[b]).serial by {
                        let pa = if a < i as int {
                            a
                        } else {
                            a + 1
                        };
                        let pb = if b < i as int {
                            b
                        } else {
                            b + 1
                        };
                        assert(final(self).published@[a] == old(self).published@[pa]);
                        assert(final(self).published@[b] == old(self).published@[pb]);
                    }
                }
                return Ok(f);
            }
            i = i + 1;
        }
        Err(Error::Io(IoErrorKind::NotFound))
    }

    /// Services one named client socket.  With the transport handled
    /// outside the engine there is no message to read here, so the call
    /// only reports whether the descriptor names a connected client.
    #[verifier::loop_isolation(false)]
    pub fn service(&mut self, sock: i32) -> (r: Result<(), Error>)
        requires
            old(self).inv(),
        ensures
            *final(self) == *old(self),
            final(self).inv(),
            r is Ok <==> exists|c: int|
                0 <= c < old(self).clients@.len() && (#[trigger] old(self).clients@[c]).fd == sock,
            r is Err ==> r == Err::<(), Error>(Error::Io(IoErrorKind::BrokenPipe)),
    {
        let n = self.clients.len();
        let mut c: usize = 0;
        while c < n
            invariant
                n == self.clients@.len(),
                c <= n,
                *self == *old(self),
                forall|j: int| 0 <= j < c ==> (#[trigger] self.clients@[j]).fd != sock,
            decreases n - c,
        {
            if self.clients[c].fd == sock {
                proof {
                    assert(0 <= c < old(self).clients@.len() && (#[trigger] old(
                        self,
                    ).clients@[c as int]).fd == sock);
                }
                return Ok(());
            }
            c = c + 1;
        }
        Err(Error::Io(IoErrorKind::BrokenPipe))
    }

    /// A snapshot of the host's sockets: the listening socket first, then
    /// every connected client, each exactly once.  Refresh it often — it
    /// goes stale as clients come and go.
    #[verifier::loop_isolation(false)]
    pub fn sockets(&self) -> (r: Vec<i32>)
        requires
            self.inv(),
        ensures
            r@.len() == self.clients@.len() + 1,
            r@[0] == self.listen_fd,
            r@[0] >= 0,
            forall|c: int|
                0 <= c < self.clients@.len() ==> r@[c + 1] == (#[trigger] self.clients@[c]).fd,
            forall|i: int, j: int| 0 <= i < j < r@.len() ==> #[trigger] r@[i] != #[trigger] r@[j],
    {
        let mut out: Vec<i32> = Vec::new();
        out.push(self.listen_fd);
        let n = self.clients.len();
        let mut c: usize = 0;
        while c < n
            invariant
                n == self.clients@.len(),
                c <= n,
                out@.len() == c + 1,
                out@[0] == self.listen_fd,
                forall|j: int| 0 <= j < c ==> out@[j + 1] == (#[trigger] self.clients@[j]).fd,
            decreases n - c,
        {
            out.push(self.clients[c].fd);
            c = c + 1;
        }
        proof {
            assert forall|i: int, j: int| 0 <= i < j < out@.len() implies #[trigger] out@[i]
                != #[trigger] out@[j] by {
                if i == 0 {
                    assert(out@[j] == self.clients@[j - 1].fd && out@[j] >= 1);
                } else {
                    assert(out@[i] == self.clients@[i - 1].fd && out@[j] == self.clients@[j
                        - 1].fd);
                    assert(self.clients@[i - 1].fd < self.clients@[j - 1].fd);
                }
            }
        }
        out
    }

    /// Removes a client that went away: its queue is discarded and its
    /// descriptor no longer counts as connected.  Reports whether the
    /// descriptor named a client.
    #[verifier::loop_isolation(false)]
    pub fn disconnect_client(&mut self, sock: i32) -> (r: bool)
        requires
            old(self).inv(),
        ensures
            final(self).inv(),
            final(self).published@ == old(self).published@,
            final(self).pending@ == old(self).pending@,
            final(self).next_serial == old(self).next_serial,
            final(self).next_fd == old(self).next_fd,
            final(self).path@ == old(self).path@,
            final(self).listen_fd == old(self).listen_fd,
            r <==> exists|c: int|
                0 <= c < old(self).clients@.len() && (#[trigger] old(self).clients@[c]).fd
                    == sock,
            r ==> exists|c: int|
                {
                    &&& 0 <= c < old(self).clients@.len()
                    &&& (#[trigger] old(self).clients@[c]).fd == sock
                    &&& final(self).clients@ =~= old(self).clients@.subrange(0, c) + old(
                        self,
                    ).clients@.skip(c + 1)
                },
            !r ==> *final(self) == *old(self),
    {
        let n = self.clients.len();
        let mut c: usize = 0;
        while c < n
            invariant
                n == self.clients@.len(),
                c <= n,
                *self == *old(self),
                forall|j: int| 0 <= j < c ==> (#[trigger] self.clients@[j]).fd != sock,
            decreases n - c,
        {
            if self.clients[c].fd == sock {
                let _ = self.clients.remove(c);
                proof {
                    let ci = c as int;
                    assert(0 <= ci < old(self).clients@.len() && (#[trigger] old(
                        self,
                    ).clients@[ci]).fd == sock);
                    assert(self.clients@ =~= old(self).clients@.subrange(0, ci) + old(
                        self,
                    ).clients@.skip(ci + 1));
                    assert forall|a: int| 0 <= a < self.clients@.len() implies (
                    #[trigger] self.clients@[a]).fd >= 1 by {
                        if a < ci {
                            assert(self.clients@[a] == old(self).clients@[a]);
                        } else {
                            assert(self.clients@[a] == old(self).clients@[a + 1]);
                        }
                    }
                    assert forall|a: int, i: int, j: int|
                        0 <= a < self.clients@.len() && 0 <= i < j
                            < self.clients@[a].outbox@.len() implies (
                    #[trigger] self.clients@[a].outbox@[i]).serial < (
                    #[trigger] self.clients@[a].outbox@[j]).serial by {
                        if a < ci {
                            assert(self.clients@[a] == old(self).clients@[a]);
                        } else {
                            assert(self.clients@[a] == old(self).clients@[a + 1]);
                        }
                    }
                    assert forall|a: int, i: int|
                        0 <= a < self.clients@.len() && 0 <= i
                            < self.clients@[a].outbox@.len() implies (
                    #[trigger] self.clients@[a].outbox@[i]).serial < self.next_serial by {
                        if a < ci {
                            assert(self.clients@[a] == old(self).clients@[a]);
                        } else {
                            assert(self.clients@[a] == old(self).clients@[a + 1]);
                        }
                    }
                }
                return true;
            }
            c = c + 1;
        }
        false
    }

    /// Hands over the descriptors queued for one client, oldest first, and
    /// leaves its queue empty.  A descriptor for an unknown client yields
    /// nothing.  The transport calls this to carry broadcasts to the peer.
    #[verifier::loop_isolation(false)]
    pub fn take_outgoing(&mut self, sock: i32) -> (r: Vec<FrameDesc>)
        requires
            old(self).inv(),
        ensures
            final(self).inv(),
            final(self).published@ == old(self).published@,
            final(self).pending@ == old(self).pending@,
            final(self).next_serial == old(self).next_serial,
            final(self).next_fd == old(self).next_fd,
            final(self).path@ == old(self).path@,
            final(self).clients@.len() == old(self).clients@.len(),
            forall|c: int|
                0 <= c < old(self).clients@.len() ==> (#[trigger] final(self).clients@[c]).fd
                    == old(self).clients@[c].fd,
            forall|c: int|
                0 <= c < old(self).clients@.len() && old(self).clients@[c].fd != sock ==> (
                #[trigger] final(self).clients@[c]).outbox@ == old(self).clients@[c].outbox@,
            (exists|c: int|
                0 <= c < old(self).clients@.len() && (#[trigger] old(self).clients@[c]).fd
                    == sock) ==> exists|c: int|
                {
                    &&& 0 <= c < old(self).clients@.len()
                    &&& (#[trigger] old(self).clients@[c]).fd == sock
                    &&& r@ == old(self).clients@[c].outbox@
                    &&& final(self).clients@[c].outbox@.len() == 0
                },
            !(exists|c: int|
                0 <= c < old(self).clients@.len() && (#[trigger] old(self).clients@[c]).fd
                    == sock) ==> r@.len() == 0 && *final(self) == *old(self),
    {
        let n = self.clients.len();
        let mut c: usize = 0;
        while c < n
            invariant
                n == self.clients@.len(),
                c <= n,
                *self == *old(self),
                forall|j: int| 0 <= j < c ==> (#[trigger] self.clients@[j]).fd != sock,
            decreases n - c,
        {
            if self.clients[c].fd == sock {
                let mut out: Vec<FrameDesc> = Vec::new();
                core::mem::swap(&mut out, &mut self.clients[c].outbox);
                proof {
                    let ghost h = *self;
                    let ghost o = *old(self);
                    let ci = c as int;
                    assert(0 <= ci < o.clients@.len() && (#[trigger] o.clients@[ci]).fd == sock);
                    assert(h.clients@[ci].outbox@.len() == 0);
                    assert(out@ == o.clients@[ci].outbox@);
                    assert forall|a: int|
                        0 <= a < h.clients@.len() && a != ci implies #[trigger] h.clients@[a]
                        == o.clients@[a] by {}
                    assert forall|a: int, i: int, j: int|
                        0 <= a < h.clients@.len() && 0 <= i < j
                            < h.clients@[a].outbox@.len() implies (
                    #[trigger] h.clients@[a].outbox@[i]).serial < (
                    #[trigger] h.clients@[a].outbox@[j]).serial by {
                        if a != ci {
                            assert(h.clients@[a] == o.clients@[a]);
                        } else {
                            assert(h.clients@[a].outbox@.len() == 0);
                        }
                    }
                    assert forall|a: int, i: int|
                        0 <= a < h.clients@.len() && 0 <= i
                            < h.clients@[a].outbox@.len() implies (
                    #[trigger] h.clients@[a].outbox@[i]).serial < h.next_serial by {
                        if a != ci {
                            assert(h.clients@[a] == o.clients@[a]);
                        } else {
                            assert(h.clients@[a].outbox@.len() == 0);
                        }
                    }
                    assert forall|a: int|
                        0 <= a < h.clients@.len() implies (#[trigger] h.clients@[a]).fd
                        == o.clients@[a].fd by {
                        if a != ci {
                            assert(h.clients@[a] == o.clients@[a]);
                        }
                    }
                }
                return out;
            }
            c = c + 1;
        }
        Vec::new()
    }
}

/// Filtering published frames by deadline keeps their serial order: the
/// survivors still carry strictly increasing serials below the counter.
proof fn lemma_unexpired_sorted(frames: Seq<Frame>, now: i64, bound: i64)
    requires
        forall|i: int| 0 <= i < frames.len() ==> (#[trigger] frames[i]).inv(),
        forall|i: int| 0 <= i < frames.len() ==> (#[trigger] frames[i]).serial < bound,
        forall|i: int, j: int|
            0 <= i < j < frames.len() ==> (#[trigger] frames[i]).serial < (
            #[trigger] frames[j]).serial,
    ensures
        forall|i: int|
            0 <= i < spec_unexpired(frames, now).len() ==> (#[trigger] spec_unexpired(
                frames,
                now,
            )[i]).inv(),
        forall|i: int|
            0 <= i < spec_unexpired(frames, now).len() ==> (#[trigger] spec_unexpired(
                frames,
                now,
            )[i]).serial < bound,
        forall|i: int, j: int|
            0 <= i < j < spec_unexpired(frames, now).len() ==> (#[trigger] spec_unexpired(
                frames,
                now,
            )[i]).serial < (#[trigger] spec_unexpired(frames, now)[j]).serial,
    decreases frames.len(),
{
    reveal_with_fuel(Seq::<Frame>::filter, 2);
    if frames.len() > 0 {
        let prefix = frames.drop_last();
        lemma_unexpired_sorted(prefix, now, bound);
        let pred = |f: Frame| f.expires_ns > now;
        let filtered = spec_unexpired(frames, now);
        let ffiltered = spec_unexpired(prefix, now);
        if pred(frames.last()) {
            assert(filtered =~= ffiltered.push(frames.last()));
            assert forall|i: int, j: int| 0 <= i < j < filtered.len() implies (
            #[trigger] filtered[i]).serial < (#[trigger] filtered[j]).serial by {
                if j < filtered.len() - 1 {
                    assert(filtered[i] == ffiltered[i] && filtered[j] == ffiltered[j]);
                } else {
                    lemma_filter_element_of(prefix, pred, i);
                }
            }
            assert forall|i: int| 0 <= i < filtered.len() implies (#[trigger] filtered[i]).inv()
                && filtered[i].serial < bound by {
                if i < filtered.len() - 1 {
                    assert(filtered[i] == ffiltered[i]);
                }
            }
        } else {
            assert(filtered =~= ffiltered);
        }
    }
}

/// Every element of a filtered sequence occurs in the sequence it was
/// filtered from.
proof fn lemma_filter_element_of(s: Seq<Frame>, pred: spec_fn(Frame) -> bool, i: int)
    requires
        0 <= i < s.filter(pred).len(),
    ensures
        exists|j: int| 0 <= j < s.len() && #[trigger] s[j] == s.filter(pred)[i],
    decreases s.len(),
{
    reveal_with_fuel(Seq::<Frame>::filter, 2);
    if s.len() > 0 {
        let prefix = s.drop_last();
        if pred(s.last()) && i == s.filter(pred).len() - 1 {
            assert(s[s.len() - 1] == s.filter(pred)[i]);
        } else {
            lemma_filter_element_of(prefix, pred, i);
            let j = choose|j: int| 0 <= j < prefix.len() && #[trigger] prefix[j] == prefix.filter(
                pred,
            )[i];
            assert(s[j] == s.filter(pred)[i]);
        }
    }
}

/// Expiration, stated of one frame: a published frame whose deadline has
/// not passed at `now` survives a processing tick, and one whose deadline
/// has passed does not — it is reclaimed by the first tick after its
/// deadline and no earlier.
pub proof fn lemma_expiration(frames: Seq<Frame>, now: i64, i: int)
    requires
        0 <= i < frames.len(),
    ensures
        frames[i].expires_ns > now ==> spec_unexpired(frames, now).contains(frames[i]),
        frames[i].expires_ns <= now ==> !spec_unexpired(frames, now).contains(frames[i]),
{
    let pred = |f: Frame| f.expires_ns > now;
    if pred(frames[i]) {
        frames.lemma_filter_contains(pred, i);
    } else {
        if spec_unexpired(frames, now).contains(frames[i]) {
            let j = choose|j: int|
                0 <= j < frames.filter(pred).len() && frames.filter(pred)[j] == frames[i];
            frames.lemma_filter_pred(pred, j);
        }
    }
}

/// Expiration without client activity: once every published frame's
/// deadline has passed, one processing tick leaves the host tracking no
/// frames at all, no matter how many were posted.
pub proof fn lemma_expire_all(frames: Seq<Frame>, now: i64)
    requires
        forall|i: int| 0 <= i < frames.len() ==> (#[trigger] frames[i]).expires_ns <= now,
    ensures
        spec_unexpired(frames, now).len() == 0,
    decreases frames.len(),
{
    reveal_with_fuel(Seq::<Frame>::filter, 2);
    if frames.len() > 0 {
        lemma_expire_all(frames.drop_last(), now);
    }
}

/// Serial monotonicity: the serials a single host issues over one
/// connection are consecutive from the first one on, so a client that
/// observes any subsequence of them sees strictly increasing values, and
/// the size of a gap between two consecutive observations equals the count
/// of frames published but missed between them.
pub proof fn lemma_serial_monotonicity(
    first: int,
    picks: Seq<int>,
    received: Seq<int>,
    dropped: Seq<int>,
)
    requires
        forall|i: int| 0 <= i < picks.len() ==> #[trigger] picks[i] >= 0,
        forall|i: int, j: int| 0 <= i < j < picks.len() ==> picks[i] < picks[j],
        received.len() == picks.len(),
        forall|i: int| 0 <= i < received.len() ==> #[trigger] received[i] == first + picks[i],
        dropped.len() + 1 == picks.len() || (dropped.len() == 0 && picks.len() == 0),
        forall|i: int|
            0 <= i < dropped.len() ==> #[trigger] dropped[i] == picks[i + 1] - picks[i] - 1,
    ensures
        forall|i: int| 0 <= i < received.len() - 1 ==> received[i] < #[trigger] received[i + 1],
        forall|i: int|
            0 <= i < dropped.len() ==> #[trigger] dropped[i] == received[i + 1] - received[i] - 1,
{
    assert forall|i: int| 0 <= i < received.len() - 1 implies received[i] < #[trigger] received[i
        + 1] by {
        assert(picks[i] < picks[i + 1]);
    }
}

} // verus!
