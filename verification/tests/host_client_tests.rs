use videostream::client::Client;
use videostream::frame::{Frame, MemoryPool};
use videostream::host::Host;
use videostream::metrics::MetricsCollector;

#[test]
fn test_host() {
    let path = "/tmp/test.vsl";
    let host = Host::new(path).unwrap();
    assert_eq!(path, host.path().unwrap());

    // A host at an empty path is refused
    assert!(Host::new("").is_err());
}

#[test]
fn test_host_sockets() {
    let host = Host::new("/tmp/test_sockets.vsl").unwrap();

    // Should have at least the listening socket
    let sockets = host.sockets();
    assert!(
        !sockets.is_empty(),
        "Expected at least 1 socket (listening socket)"
    );

    // The first socket should be the listening socket and be a valid FD
    assert!(sockets[0] >= 0, "Listening socket FD should be >= 0");
}

#[test]
fn test_host_poll_timeout() {
    let host = Host::new("/tmp/test_poll.vsl").unwrap();

    // Poll with immediate timeout should return 0 (no activity)
    let result = host.poll(0).unwrap();
    assert_eq!(result, 0, "Poll with 0 timeout should return 0");
}

#[test]
fn test_host_debug() {
    let host = Host::new("/tmp/test_debug.vsl").unwrap();
    let debug_str = format!("{:?}", host);

    // Debug output should contain Host and path info
    assert!(debug_str.contains("Host"));
    assert!(debug_str.contains("test_debug.vsl"));
}

// --- Client construction and state ---

#[test]
fn test_client_no_host_rejection() {
    // With reconnect disabled and no host listening, construction fails
    // immediately with an I/O error rather than blocking.
    let r = Client::new("/tmp/vsl_nohost.sock", false, false);
    assert!(r.is_err());

    // With reconnect enabled the client is created and waits for a host.
    let c = Client::new("/tmp/vsl_nohost.sock", true, false).unwrap();
    assert_eq!(c.path().unwrap(), "/tmp/vsl_nohost.sock");
}

#[test]
fn test_client_path() {
    let c = Client::new("/tmp/vsl_path.sock", false, true).unwrap();
    assert_eq!(c.path().unwrap(), "/tmp/vsl_path.sock");
}

#[test]
fn test_client_set_timeout() {
    let mut c = Client::new("/tmp/vsl_timeout.sock", false, true).unwrap();
    c.set_timeout(5_000_000_000).unwrap();
}

#[test]
fn test_client_disconnect() {
    let mut c = Client::new("/tmp/vsl_disc.sock", false, true).unwrap();
    c.disconnect().unwrap();
    // Without reconnect, waiting after a disconnect is refused
    assert!(c.get_frame(0).is_err());
}

#[test]
fn test_client_debug() {
    let c = Client::new("/tmp/vsl_dbg.sock", false, true).unwrap();
    let debug_str = format!("{:?}", c);
    assert!(debug_str.contains("Client"));
    assert!(debug_str.contains("vsl_dbg.sock"));
}

// --- Host/client frame pipeline, concrete scenario ---

#[test]
fn test_client_host_frame_pipeline() {
    let socket_path = "/tmp/vsl_test_pipeline.sock";
    let mut pool = MemoryPool::new();

    // Create a host and a client connected to it
    let mut host = Host::new(socket_path).unwrap();
    let mut client = Client::new(socket_path, false, true).unwrap();
    let sock = host.connect().unwrap();
    host.process(0).unwrap();

    // Allocate and fill a 640x480 RGB3 frame with a known byte pattern
    let mut frame = Frame::new(640, 480, 0, "RGB3").unwrap();
    frame.allocate(&mut pool, None).unwrap();
    let pattern: Vec<u8> = (0..(640 * 480 * 3)).map(|i| (i % 256) as u8).collect();
    frame.write(&mut pool, 0, &pattern).unwrap();

    // Post the frame with a one-second expiration
    let now = videostream::timestamp().unwrap();
    let expires = now + 1_000_000_000;
    host.post(frame, expires, -1, -1, -1).unwrap();

    // Drive the host and carry the broadcast to the client
    let _ = host.poll(100);
    host.process(now).unwrap();
    for desc in host.take_outgoing(sock) {
        client.deliver(desc);
    }

    // Receive the frame on the client side
    let received = client.get_frame(now + 100_000_000);
    if let Ok(recv_frame) = received {
        assert_eq!(recv_frame.width().unwrap(), 640);
        assert_eq!(recv_frame.height().unwrap(), 480);
        assert_eq!(recv_frame.fourcc().unwrap(), u32::from_le_bytes(*b"RGB3"));
        // Zero copy: the received frame maps the same bytes the host wrote
        let bytes = recv_frame.mmap(&pool).unwrap();
        assert_eq!(bytes[0], pattern[0]);
        assert_eq!(bytes[100], pattern[100]);
    } else {
        panic!("expected a frame after delivery");
    }
}

// --- Expiration ---

#[test]
fn test_expiration_deadline() {
    let mut host = Host::new("/tmp/vsl_expire.sock").unwrap();
    let frame = Frame::new(4, 4, 0, "GREY").unwrap();
    host.post(frame, 1_000, -1, -1, -1).unwrap();
    assert_eq!(host.published_count(), 1);

    // Not released before the deadline
    host.process(999).unwrap();
    assert_eq!(host.published_count(), 1);

    // Released by the first tick at or past the deadline
    host.process(1_000).unwrap();
    assert_eq!(host.published_count(), 0);
}

#[test]
fn test_expiration_without_client_activity() {
    // Post 1,000 frames in rapid succession with short expirations on a
    // host with zero connected clients, processing after each; nothing may
    // remain tracked at the end.
    let mut host = Host::new("/tmp/vsl_expire_many.sock").unwrap();
    for i in 0..1000i64 {
        let frame = Frame::new(2, 2, 0, "GREY").unwrap();
        host.post(frame, i, -1, -1, -1).unwrap();
        host.process(i + 1).unwrap();
    }
    assert_eq!(host.published_count(), 0, "no frames may remain tracked");
}

#[test]
fn test_drop_frame_returns_ownership() {
    let mut host = Host::new("/tmp/vsl_drop.sock").unwrap();
    let frame = Frame::new(4, 4, 0, "GREY").unwrap();
    host.post(frame, i64::MAX, -1, -1, -1).unwrap();
    assert_eq!(host.published_count(), 1);

    // The first posted frame carries serial 1
    let back = host.drop_frame(1).unwrap();
    assert_eq!(back.serial().unwrap(), 1);
    assert_eq!(host.published_count(), 0);

    // Dropping an unknown serial fails
    assert!(host.drop_frame(7).is_err());
}

#[test]
fn test_disconnect_client_removes_it() {
    let mut host = Host::new("/tmp/vsl_disc_client.sock").unwrap();
    let sock = host.connect().unwrap();
    host.process(0).unwrap();
    assert_eq!(host.sockets().len(), 2);
    assert!(host.disconnect_client(sock));
    assert_eq!(host.sockets().len(), 1);
    assert!(!host.disconnect_client(sock));
    assert!(host.service(sock).is_err());
}

#[test]
fn test_service_known_and_unknown_socket() {
    let mut host = Host::new("/tmp/vsl_service.sock").unwrap();
    let sock = host.connect().unwrap();
    host.process(0).unwrap();
    assert!(host.service(sock).is_ok());
    assert!(host.service(sock + 1).is_err());
}

// --- Serial monotonicity over one connection ---

#[test]
fn test_serial_monotonicity() {
    let socket_path = "/tmp/vsl_serials.sock";
    let mut host = Host::new(socket_path).unwrap();
    let mut client = Client::new(socket_path, false, true).unwrap();
    let sock = host.connect().unwrap();
    host.process(0).unwrap();

    // Publish five frames; each receives the next serial
    for _ in 0..5 {
        let frame = Frame::new(2, 2, 0, "GREY").unwrap();
        host.post(frame, i64::MAX, -1, -1, -1).unwrap();
    }
    for desc in host.take_outgoing(sock) {
        client.deliver(desc);
    }

    let mut metrics = MetricsCollector::new();
    let mut prev = 0i64;
    let mut received = 0u32;
    while let Ok(f) = client.get_frame(0) {
        let serial = f.serial().unwrap();
        assert!(serial > prev, "serials must strictly increase");
        assert_eq!(metrics.track_serial(serial), 0, "no gap in a full stream");
        prev = serial;
        received += 1;
    }
    assert_eq!(received, 5);
}

#[test]
fn test_serial_gap_counts_drops() {
    // When frames expire between observations, the gap equals the count of
    // frames missed.
    let socket_path = "/tmp/vsl_gaps.sock";
    let mut host = Host::new(socket_path).unwrap();
    let mut client = Client::new(socket_path, false, true).unwrap();
    let sock = host.connect().unwrap();
    host.process(0).unwrap();

    // First frame arrives; the next three expire before the client sees
    // them; a fifth arrives.
    let f1 = Frame::new(2, 2, 0, "GREY").unwrap();
    host.post(f1, i64::MAX, -1, -1, -1).unwrap();
    for desc in host.take_outgoing(sock) {
        client.deliver(desc);
    }
    for _ in 0..3 {
        let f = Frame::new(2, 2, 0, "GREY").unwrap();
        host.post(f, 0, -1, -1, -1).unwrap();
        host.process(1).unwrap();
        let _ = host.take_outgoing(sock); // lost before delivery
    }
    let f5 = Frame::new(2, 2, 0, "GREY").unwrap();
    host.post(f5, i64::MAX, -1, -1, -1).unwrap();
    for desc in host.take_outgoing(sock) {
        client.deliver(desc);
    }

    let mut metrics = MetricsCollector::new();
    let a = client.get_frame(0).unwrap().serial().unwrap();
    assert_eq!(metrics.track_serial(a), 0);
    let b = client.get_frame(0).unwrap().serial().unwrap();
    assert!(b > a);
    assert_eq!(metrics.track_serial(b), 3, "gap equals frames missed");
}

#[test]
fn test_frame_wait_matches_get_frame() {
    let socket_path = "/tmp/vsl_wait.sock";
    let mut host = Host::new(socket_path).unwrap();
    let mut client = Client::new(socket_path, false, true).unwrap();
    let sock = host.connect().unwrap();
    host.process(0).unwrap();
    let f = Frame::new(6, 4, 0, "GREY").unwrap();
    host.post(f, i64::MAX, -1, -1, -1).unwrap();
    for desc in host.take_outgoing(sock) {
        client.deliver(desc);
    }
    let got = Frame::wait(&mut client, 0).unwrap();
    assert_eq!(got.width().unwrap(), 6);
    // The queue is now empty: a further wait reports a timeout
    assert!(Frame::wait(&mut client, 0).is_err());
}
