use videostream::v4l2::{
    Device, DeviceEnumerator, DeviceType, Format, MemoryCapabilities, MemoryType, Resolution,
    MEM_DMABUF, MEM_MMAP, MEM_USERPTR, RAW_TYPE_CAMERA, RAW_TYPE_DECODER, RAW_TYPE_ENCODER,
    RAW_TYPE_ISP, RAW_TYPE_M2M, RAW_TYPE_OUTPUT,
};
use videostream::fourcc::FourCC;

#[test]
fn test_device_type_from_raw_camera() {
    let dt = DeviceType::from_raw(RAW_TYPE_CAMERA);
    assert_eq!(dt, Some(DeviceType::Camera));
}

#[test]
fn test_device_type_from_raw_encoder() {
    let dt = DeviceType::from_raw(RAW_TYPE_ENCODER);
    assert_eq!(dt, Some(DeviceType::Encoder));
}

#[test]
fn test_device_type_from_raw_decoder() {
    let dt = DeviceType::from_raw(RAW_TYPE_DECODER);
    assert_eq!(dt, Some(DeviceType::Decoder));
}

#[test]
fn test_device_type_from_raw_output() {
    let dt = DeviceType::from_raw(RAW_TYPE_OUTPUT);
    assert_eq!(dt, Some(DeviceType::Output));
}

#[test]
fn test_device_type_from_raw_isp() {
    let dt = DeviceType::from_raw(RAW_TYPE_ISP);
    assert_eq!(dt, Some(DeviceType::Isp));
}

#[test]
fn test_device_type_from_raw_m2m() {
    let dt = DeviceType::from_raw(RAW_TYPE_M2M);
    assert_eq!(dt, Some(DeviceType::M2m));
}

#[test]
fn test_device_type_from_raw_unknown() {
    // Values outside the enum range should map to Unknown
    let dt = DeviceType::from_raw(9999);
    assert_eq!(dt, Some(DeviceType::Unknown));
}

#[test]
fn v4l2_discovery_test_device_type_name() {
    assert_eq!(DeviceType::Camera.name(), "Camera");
    assert_eq!(DeviceType::Encoder.name(), "Encoder");
    assert_eq!(DeviceType::Decoder.name(), "Decoder");
    assert_eq!(DeviceType::Output.name(), "Output");
    assert_eq!(DeviceType::Isp.name(), "ISP");
    assert_eq!(DeviceType::M2m.name(), "M2M");
    assert_eq!(DeviceType::Unknown.name(), "Unknown");
}

#[test]
fn v4l2_discovery_test_device_type_display() {
    assert_eq!(DeviceType::Camera.display(), "Camera");
    assert_eq!(DeviceType::Encoder.display(), "Encoder");
    assert_eq!(DeviceType::Decoder.display(), "Decoder");
}

#[test]
fn enumerator_test_device_type_name() {
    assert_eq!(DeviceType::Camera.name(), "Camera");
    assert_eq!(DeviceType::Encoder.name(), "Encoder");
    assert_eq!(DeviceType::Decoder.name(), "Decoder");
}

#[test]
fn enumerator_test_device_type_display() {
    assert_eq!(DeviceType::Camera.display(), "Camera");
    assert_eq!(DeviceType::Encoder.display(), "Encoder");
}

// -----------------------------------------------------------------------------
// MemoryType Tests
// -----------------------------------------------------------------------------

#[test]
fn test_memory_type_from_mask_empty() {
    let types = MemoryType::from_mask(0);
    assert!(types.is_empty());
}

#[test]
fn test_memory_type_from_mask_single_mmap() {
    let types = MemoryType::from_mask(MEM_MMAP);
    assert_eq!(types.len(), 1);
    assert!(types.contains(&MemoryType::Mmap));
}

#[test]
fn test_memory_type_from_mask_single_userptr() {
    let types = MemoryType::from_mask(MEM_USERPTR);
    assert_eq!(types.len(), 1);
    assert!(types.contains(&MemoryType::UserPtr));
}

#[test]
fn test_memory_type_from_mask_single_dmabuf() {
    let types = MemoryType::from_mask(MEM_DMABUF);
    assert_eq!(types.len(), 1);
    assert!(types.contains(&MemoryType::DmaBuf));
}

#[test]
fn test_memory_type_from_mask_multiple() {
    // Combine MMAP and DMABUF
    let mask = MEM_MMAP | MEM_DMABUF;
    let types = MemoryType::from_mask(mask);
    assert_eq!(types.len(), 2);
    assert!(types.contains(&MemoryType::Mmap));
    assert!(types.contains(&MemoryType::DmaBuf));
    assert!(!types.contains(&MemoryType::UserPtr));
}

#[test]
fn test_memory_type_from_mask_all() {
    let mask = MEM_MMAP | MEM_USERPTR | MEM_DMABUF;
    let types = MemoryType::from_mask(mask);
    assert_eq!(types.len(), 3);
    assert!(types.contains(&MemoryType::Mmap));
    assert!(types.contains(&MemoryType::UserPtr));
    assert!(types.contains(&MemoryType::DmaBuf));
}

#[test]
fn test_memory_type_display() {
    assert_eq!(MemoryType::Mmap.display(), "MMAP");
    assert_eq!(MemoryType::UserPtr.display(), "USERPTR");
    assert_eq!(MemoryType::DmaBuf.display(), "DMABUF");
}

// -----------------------------------------------------------------------------
// MemoryCapabilities Tests
// -----------------------------------------------------------------------------

#[test]
fn test_memory_capabilities_from_types_empty() {
    let caps = MemoryCapabilities::from_types(&[]);
    assert!(!caps.mmap);
    assert!(!caps.userptr);
    assert!(!caps.dmabuf);
}

#[test]
fn test_memory_capabilities_from_types_mmap() {
    let caps = MemoryCapabilities::from_types(&[MemoryType::Mmap]);
    assert!(caps.mmap);
    assert!(!caps.userptr);
    assert!(!caps.dmabuf);
}

#[test]
fn test_memory_capabilities_from_types_dmabuf() {
    let caps = MemoryCapabilities::from_types(&[MemoryType::DmaBuf]);
    assert!(!caps.mmap);
    assert!(!caps.userptr);
    assert!(caps.dmabuf);
}

#[test]
fn test_memory_capabilities_from_types_all() {
    let caps = MemoryCapabilities::from_types(&[
        MemoryType::Mmap,
        MemoryType::UserPtr,
        MemoryType::DmaBuf,
    ]);
    assert!(caps.mmap);
    assert!(caps.userptr);
    assert!(caps.dmabuf);
}

#[test]
fn test_memory_capabilities_default() {
    let caps = MemoryCapabilities::default();
    assert!(!caps.mmap);
    assert!(!caps.userptr);
    assert!(!caps.dmabuf);
}

// -----------------------------------------------------------------------------
// Resolution Tests
// -----------------------------------------------------------------------------

#[test]
fn test_resolution_new() {
    let res = Resolution::new(1920, 1080);
    assert_eq!(res.width, 1920);
    assert_eq!(res.height, 1080);
}

#[test]
fn test_resolution_display() {
    let res = Resolution::new(1920, 1080);
    assert_eq!(res.display(), "1920x1080");
}

#[test]
fn test_resolution_display_4k() {
    let res = Resolution::new(3840, 2160);
    assert_eq!(res.display(), "3840x2160");
}

#[test]
fn test_resolution_display_vga() {
    let res = Resolution::new(640, 480);
    assert_eq!(res.display(), "640x480");
}

#[test]
fn test_resolution_equality() {
    let a = Resolution::new(1920, 1080);
    let b = Resolution::new(1920, 1080);
    let c = Resolution::new(1280, 720);
    assert_eq!(a, b);
    assert_ne!(a, c);
}

// -----------------------------------------------------------------------------
// Device construction and search
// -----------------------------------------------------------------------------

fn sample_encoder() -> Device {
    Device::new(
        "/dev/video10".to_string(),
        "wave6-enc".to_string(),
        "wave6-enc".to_string(),
        "platform:wave6-enc".to_string(),
        DeviceType::Encoder,
        true,
        MemoryType::from_mask(MEM_MMAP | MEM_DMABUF),
        MemoryType::from_mask(MEM_MMAP | MEM_DMABUF),
        vec![Format::new(
            FourCC(*b"H264"),
            "H.264".to_string(),
            true,
            vec![],
        )],
        vec![Format::new(
            FourCC(*b"NV12"),
            "Y/UV 4:2:0".to_string(),
            false,
            vec![],
        )],
    )
}

#[test]
fn test_device_accessors() {
    let d = sample_encoder();
    assert_eq!(d.path_str(), "/dev/video10");
    assert_eq!(d.driver(), "wave6-enc");
    assert_eq!(d.card(), "wave6-enc");
    assert_eq!(d.bus(), "platform:wave6-enc");
    assert_eq!(d.device_type(), DeviceType::Encoder);
    assert!(d.is_multiplanar());
    assert!(d.is_encoder());
    assert!(!d.is_decoder());
    assert!(!d.is_camera());
    assert!(d.supports_capture_dmabuf());
    assert!(d.supports_output_dmabuf());
    assert!(d.capture_memory().mmap);
    assert!(!d.capture_memory().userptr);
    assert_eq!(d.capture_formats().len(), 1);
    assert_eq!(d.output_formats().len(), 1);
    assert_eq!(d.capture_memory_types().len(), 2);
    assert_eq!(d.output_memory_types().len(), 2);
}

#[test]
fn test_find_encoder_in_devices() {
    let devices = vec![sample_encoder()];
    let found = DeviceEnumerator::find_encoder(&devices, b"H264");
    assert_eq!(found.as_deref(), Some("/dev/video10"));
    assert!(DeviceEnumerator::find_encoder(&devices, b"HEVC").is_none());
    // The encoder is searched by its compressed capture formats, so it is
    // not found as a decoder or camera.
    assert!(DeviceEnumerator::find_decoder(&devices, b"H264").is_none());
    assert!(DeviceEnumerator::find_camera(&devices, b"H264").is_none());
}
