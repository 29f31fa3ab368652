use videostream::decoder;
use videostream::decoder::{DecodeReturnCode, Decoder, DecoderInputCodec};
use videostream::encoder;
use videostream::encoder::{Encoder, VSLEncoderProfileEnum, VSLRect};

#[test]
fn test_vsl_rect_new() {
    let rect = VSLRect::new(10, 20, 640, 480);
    assert_eq!(rect.x(), 10);
    assert_eq!(rect.y(), 20);
    assert_eq!(rect.width(), 640);
    assert_eq!(rect.height(), 480);
}

#[test]
fn test_vsl_rect_zero() {
    let rect = VSLRect::new(0, 0, 0, 0);
    assert_eq!(rect.x(), 0);
    assert_eq!(rect.y(), 0);
    assert_eq!(rect.width(), 0);
    assert_eq!(rect.height(), 0);
}

#[test]
fn test_vsl_rect_negative() {
    // Negative values should be allowed (for crop offsets)
    let rect = VSLRect::new(-10, -20, 640, 480);
    assert_eq!(rect.x(), -10);
    assert_eq!(rect.y(), -20);
}

#[test]
fn test_vsl_rect_large_values() {
    // Test with 4K resolution values
    let rect = VSLRect::new(0, 0, 3840, 2160);
    assert_eq!(rect.width(), 3840);
    assert_eq!(rect.height(), 2160);
}

#[test]
fn test_encoder_profile_enum_values() {
    // Verify profile values count up from automatic selection
    assert_eq!(VSLEncoderProfileEnum::Auto.as_u32(), 0);
    assert_eq!(VSLEncoderProfileEnum::Kbps5000.as_u32(), 1);
    assert_eq!(VSLEncoderProfileEnum::Kbps25000.as_u32(), 2);
    assert_eq!(VSLEncoderProfileEnum::Kbps50000.as_u32(), 3);
    assert_eq!(VSLEncoderProfileEnum::Kbps100000.as_u32(), 4);
}

#[test]
fn test_encoder_profile_enum_clone() {
    let profile = VSLEncoderProfileEnum::Kbps25000;
    let cloned = profile;
    assert_eq!(profile, cloned);
}

#[test]
fn test_encoder_profile_enum_debug() {
    let profile = VSLEncoderProfileEnum::Kbps25000;
    let debug_str = format!("{:?}", profile);
    assert!(debug_str.contains("Kbps25000"));
}

#[test]
fn test_encoder_profile_enum_copy() {
    let profile = VSLEncoderProfileEnum::Kbps50000;
    let copied = profile;
    assert_eq!(profile, copied);
}

#[test]
fn test_encoder_profile_enum_equality() {
    let a = VSLEncoderProfileEnum::Auto;
    let b = VSLEncoderProfileEnum::Auto;
    let c = VSLEncoderProfileEnum::Kbps5000;
    assert_eq!(a, b);
    assert_ne!(a, c);
}

/// is_available() returns a valid result without panicking
#[test]
fn test_encoder_is_available_returns_result() {
    let result = encoder::is_available();
    assert!(
        result.is_ok(),
        "is_available should always return Ok in this build"
    );
}

/// Encoder::create reports missing entry points instead of panicking
#[test]
fn test_encoder_create_handles_missing_symbols() {
    let result = Encoder::create(
        VSLEncoderProfileEnum::Kbps25000.as_u32(),
        u32::from_le_bytes(*b"H264"),
        30,
    );
    assert!(matches!(result, Err(videostream::Error::SymbolNotFound)));
}

#[test]
fn test_decoder_input_codec_values() {
    assert_eq!(DecoderInputCodec::H264.as_i32(), 0);
    assert_eq!(DecoderInputCodec::HEVC.as_i32(), 1);
}

#[test]
fn test_decoder_input_codec_equality() {
    let a = DecoderInputCodec::H264;
    let b = DecoderInputCodec::H264;
    let c = DecoderInputCodec::HEVC;
    assert_eq!(a, b);
    assert_ne!(a, c);
}

#[test]
fn test_decode_return_code_equality() {
    let a = DecodeReturnCode::Success;
    let b = DecodeReturnCode::Success;
    let c = DecodeReturnCode::FrameDecoded;
    assert_eq!(a, b);
    assert_ne!(a, c);
}

#[test]
fn test_decode_return_code_debug() {
    let code = DecodeReturnCode::FrameDecoded;
    let debug_str = format!("{:?}", code);
    assert!(debug_str.contains("FrameDecoded"));
}

#[test]
fn test_decoder_input_codec_debug() {
    let codec = DecoderInputCodec::H264;
    let debug_str = format!("{:?}", codec);
    assert!(debug_str.contains("H264"));
}

#[test]
fn test_decoder_input_codec_clone() {
    let codec = DecoderInputCodec::HEVC;
    let cloned = codec;
    assert_eq!(codec, cloned);
}

#[test]
fn test_decode_return_code_clone() {
    let code = DecodeReturnCode::Initialized;
    let cloned = code;
    assert_eq!(code, cloned);
}

#[test]
fn test_decode_return_code_all_variants() {
    // Test all variants can be created and compared
    let success = DecodeReturnCode::Success;
    let initialized = DecodeReturnCode::Initialized;
    let frame_decoded = DecodeReturnCode::FrameDecoded;

    assert_ne!(success, initialized);
    assert_ne!(initialized, frame_decoded);
    assert_ne!(success, frame_decoded);
}

/// is_available() returns a valid result without panicking
#[test]
fn test_decoder_is_available_returns_result() {
    let result = decoder::is_available();
    assert!(result.is_ok() || result.is_err());
}

/// Decoder::create reports missing entry points instead of panicking
#[test]
fn test_decoder_create_handles_missing_symbols() {
    let result = Decoder::create(DecoderInputCodec::H264, 30);
    assert!(matches!(result, Err(videostream::Error::SymbolNotFound)));
}
