use videostream::camera::{create_camera, Camera, Mirror};
use videostream::error::CliError;
use videostream::fourcc::FourCC;
use videostream::metrics::MetricsCollector;
use videostream::{timestamp, version, Error, IoErrorKind};

#[test]
fn test_timestamp() {
    let result = timestamp();
    assert!(result.is_ok(), "timestamp() should succeed");
    let ts = result.unwrap();
    assert!(ts >= 0, "timestamp should be non-negative");
}

#[test]
fn test_version() {
    let ver = version().unwrap();
    assert!(!ver.is_empty());
}

#[test]
fn test_error_display() {
    let err = CliError::CameraNotFound("/dev/video0".to_string());
    assert_eq!(err.message(), "Camera not found: /dev/video0");
}

#[test]
fn test_exit_codes() {
    assert_eq!(CliError::InvalidArgs("test".into()).exit_code(), 2);
    assert_eq!(CliError::CameraNotFound("test".into()).exit_code(), 3);
    assert_eq!(CliError::EncoderUnavailable("test".into()).exit_code(), 4);
    assert_eq!(CliError::SocketError("test".into()).exit_code(), 5);
    assert_eq!(CliError::Timeout("test".into()).exit_code(), 6);
    assert_eq!(CliError::General("test".into()).exit_code(), 1);
}

#[test]
fn test_cli_error_from_library_error() {
    assert!(matches!(
        CliError::from_error(&Error::Io(IoErrorKind::NotFound)),
        CliError::CameraNotFound(_)
    ));
    assert!(matches!(
        CliError::from_error(&Error::Io(IoErrorKind::TimedOut)),
        CliError::Timeout(_)
    ));
    assert!(matches!(
        CliError::from_error(&Error::Io(IoErrorKind::ConnectionRefused)),
        CliError::SocketError(_)
    ));
    assert!(matches!(
        CliError::from_error(&Error::Io(IoErrorKind::BrokenPipe)),
        CliError::SocketError(_)
    ));
    assert!(matches!(
        CliError::from_error(&Error::Io(IoErrorKind::PermissionDenied)),
        CliError::CameraNotFound(_)
    ));
    assert!(matches!(
        CliError::from_error(&Error::SymbolNotFound),
        CliError::EncoderUnavailable(_)
    ));
    assert!(matches!(
        CliError::from_error(&Error::HardwareNotAvailable),
        CliError::EncoderUnavailable(_)
    ));
    assert!(matches!(
        CliError::from_error(&Error::NullPointer),
        CliError::General(_)
    ));
    assert!(matches!(
        CliError::from_error(&Error::InvalidFormat),
        CliError::General(_)
    ));
}

// --- Integration-level checks across the library's pieces ---

#[test]
fn test_fourcc_handling() {
    // Test FourCC creation and conversion
    let h264_fourcc = FourCC(*b"H264");
    let h265_fourcc = FourCC(*b"HEVC");
    let yuyv_fourcc = FourCC(*b"YUYV");
    let nv12_fourcc = FourCC(*b"NV12");

    // Test conversion to u32
    let h264_u32: u32 = h264_fourcc.into();
    assert_eq!(h264_u32, u32::from_le_bytes(*b"H264"));

    // Test conversion from u32
    let h264_back = FourCC::from(h264_u32);
    assert_eq!(h264_back, h264_fourcc);

    // Test display
    assert_eq!(h264_fourcc.display(), "H264");
    assert_eq!(h265_fourcc.display(), "HEVC");
    assert_eq!(yuyv_fourcc.display(), "YUYV");
    assert_eq!(nv12_fourcc.display(), "NV12");
}

/// Frame size estimation for different formats
#[test]
fn test_frame_size_calculations() {
    let width = 1920u32;
    let height = 1080u32;

    // YUYV is 2 bytes per pixel (4:2:2)
    let yuyv_size = width * height * 2;
    assert_eq!(yuyv_size, 4_147_200);

    // NV12 is 1.5 bytes per pixel (4:2:0)
    let nv12_size = width * height * 3 / 2;
    assert_eq!(nv12_size, 3_110_400);

    // RGB3 is 3 bytes per pixel
    let rgb3_size = width * height * 3;
    assert_eq!(rgb3_size, 6_220_800);

    // Encoded frames use fixed 1MB buffer
    let encoded_buffer_size = 1024 * 1024;
    assert_eq!(encoded_buffer_size, 1_048_576);
}

// --- Metrics ---

#[test]
fn test_dropped_frames_detection() {
    let mut collector = MetricsCollector::new();

    // Normal sequence
    collector.track_serial(100);
    collector.track_serial(101);
    collector.track_serial(102);

    // Drop 3 frames
    collector.track_serial(106);

    assert_eq!(collector.dropped_frames, 3);

    // Continue normal
    collector.track_serial(107);
    assert_eq!(collector.dropped_frames, 3);
}

#[test]
fn test_metrics_counters() {
    let mut collector = MetricsCollector::new();
    collector.record_latency_us(150);
    collector.record_latency_ns(2_500_000); // 2500 microseconds
    collector.record_latency_ns(-5); // negative readings count as zero
    collector.record_bytes(1000);
    collector.record_bytes(500);
    assert_eq!(collector.frames_processed(), 3);
    assert_eq!(collector.latencies_us, vec![150, 2500, 0]);
    assert_eq!(collector.bytes, 1500);
}

#[test]
fn test_metrics_serial_backwards_counts_no_drop() {
    let mut collector = MetricsCollector::new();
    assert_eq!(collector.track_serial(10), 0);
    assert_eq!(collector.track_serial(5), 0); // backwards: logged, not a drop
    assert_eq!(collector.track_serial(6), 0);
    assert_eq!(collector.dropped_frames, 0);
}

// --- Camera configuration builder ---

#[test]
fn test_camera_builder() {
    let cam = create_camera()
        .with_device("/dev/video3")
        .with_resolution(640, 480)
        .with_format(FourCC(*b"NV12"))
        .with_mirror(Mirror::Horizontal)
        .with_buffers(6);
    assert_eq!(cam.device, "/dev/video3");
    assert_eq!(cam.width, 640);
    assert_eq!(cam.height, 480);
    assert_eq!(cam.format, FourCC(*b"NV12"));
    assert!(matches!(cam.mirror, Mirror::Horizontal));
    assert_eq!(cam.num_buffers, 6);
}

#[test]
fn test_camera_default() {
    let cam = Camera::default();
    assert_eq!(cam.device, "/dev/video0");
    assert_eq!(cam.width, 1920);
    assert_eq!(cam.height, 1080);
    assert_eq!(cam.format, FourCC(*b"YUYV"));
    assert_eq!(cam.num_buffers, 4);
}

#[test]
fn test_mirror_display() {
    assert_eq!(Mirror::Off.display(), "none");
    assert_eq!(Mirror::Horizontal.display(), "horizontal");
    assert_eq!(Mirror::Vertical.display(), "vertical");
    assert_eq!(Mirror::Both.display(), "both");
}
