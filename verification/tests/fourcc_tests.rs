use std::collections::HashSet;
use videostream::fourcc::FourCC;

#[test]
fn test_fourcc_from_bytes() {
    let fourcc = FourCC(*b"YUYV");
    assert_eq!(fourcc.0, [b'Y', b'U', b'Y', b'V']);
}

#[test]
fn test_fourcc_from_byte_slice() {
    let bytes: &[u8; 4] = b"RGB3";
    let fourcc = FourCC::from(bytes);
    assert_eq!(fourcc.0, *b"RGB3");
}

#[test]
fn test_fourcc_from_u32() {
    // YUYV = 0x56595559 in little-endian
    let fourcc = FourCC::from(0x56595559u32);
    assert_eq!(fourcc.display(), "YUYV");
}

#[test]
fn test_fourcc_to_u32() {
    let fourcc = FourCC(*b"YUYV");
    let val: u32 = fourcc.into();
    assert_eq!(val, 0x56595559);
}

#[test]
fn test_fourcc_roundtrip() {
    let original = FourCC(*b"NV12");
    let as_u32: u32 = original.into();
    let back = FourCC::from(as_u32);
    assert_eq!(original, back);
}

#[test]
fn test_fourcc_display() {
    let fourcc = FourCC(*b"H264");
    assert_eq!(fourcc.display(), "H264");
}

#[test]
fn test_fourcc_debug() {
    let fourcc = FourCC(*b"HEVC");
    let debug_str = format!("{:?}", fourcc);
    // Debug prints the four byte values
    assert!(debug_str.contains("FourCC"));
}

#[test]
fn test_fourcc_equality() {
    let a = FourCC(*b"YUYV");
    let b = FourCC(*b"YUYV");
    let c = FourCC(*b"NV12");
    assert_eq!(a, b);
    assert_ne!(a, c);
}

#[test]
fn test_fourcc_hash() {
    let mut set = HashSet::new();
    set.insert(FourCC(*b"YUYV"));
    set.insert(FourCC(*b"NV12"));
    set.insert(FourCC(*b"YUYV")); // Duplicate
    assert_eq!(set.len(), 2);
}

#[test]
fn test_fourcc_non_ascii_display() {
    // Non-ASCII bytes still render as four characters
    let fourcc = FourCC([0x00, 0x01, 0x02, 0x03]);
    let display = fourcc.display();
    assert!(
        !display.is_empty(),
        "Display should produce output for non-ASCII"
    );
}

#[test]
fn test_common_formats() {
    // Test common video formats
    let formats = [
        ("YUYV", 0x56595559u32),
        ("NV12", 0x3231564eu32),
        ("RGB3", 0x33424752u32),
        ("GREY", 0x59455247u32),
    ];

    for (name, expected_val) in formats {
        let fourcc = FourCC(*name.as_bytes().first_chunk::<4>().unwrap());
        let val: u32 = fourcc.into();
        assert_eq!(val, expected_val, "FourCC {} value mismatch", name);
    }
}

#[test]
fn test_fourcc_from_slice() {
    let bytes: &[u8] = b"MJPG";
    let fourcc = FourCC::from_slice(bytes);
    assert_eq!(fourcc.0, *b"MJPG");
}

#[test]
fn test_fourcc_clone() {
    let original = FourCC(*b"YUYV");
    let cloned = original;
    assert_eq!(original, cloned);
}

#[test]
fn test_fourcc_copy() {
    let original = FourCC(*b"NV12");
    let copied = original;
    // Both should be equal and independent
    assert_eq!(original, copied);
}

#[test]
fn test_fourcc_as_u32_matches_le_bytes() {
    let fourcc = FourCC(*b"MJPG");
    assert_eq!(fourcc.as_u32(), u32::from_le_bytes(*b"MJPG"));
    assert_eq!(fourcc.to_u32(), u32::from_le_bytes(*b"MJPG"));
}
