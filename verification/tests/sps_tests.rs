use videostream::sps::{detect_resolution_from_sps, BitReader};

#[test]
fn test_bit_reader_reads_msb_first() {
    let data = [0b1010_0000u8];
    let mut r = BitReader::new(&data);
    assert!(r.read_bit());
    assert!(!r.read_bit());
    assert!(r.read_bit());
    assert!(!r.read_bit());
}

#[test]
fn test_bit_reader_past_end_yields_false() {
    let data = [0xFFu8];
    let mut r = BitReader::new(&data);
    r.skip_bits(8);
    assert!(!r.read_bit());
    assert!(!r.read_bit());
}

#[test]
fn test_bit_reader_read_bits_value() {
    let data = [0b1101_0110u8];
    let mut r = BitReader::new(&data);
    assert_eq!(r.read_bits(5), Some(0b11010));
    assert_eq!(r.read_bits(3), Some(0b110));
    assert_eq!(r.read_bits(33), None);
}

#[test]
fn test_exp_golomb_small_values() {
    // '1' codes 0; '010' codes 1; '011' codes 2; '00100' codes 3
    let data = [0b1_010_011_0u8, 0b0100_0000u8];
    let mut r = BitReader::new(&data);
    assert_eq!(r.read_ue(), Some(0));
    assert_eq!(r.read_ue(), Some(1));
    assert_eq!(r.read_ue(), Some(2));
    assert_eq!(r.read_ue(), Some(3));
}

#[test]
fn test_exp_golomb_signed_values() {
    // codes 1, 2, 3, 4 map to +1, -2, +2, -3 in this reader's mapping
    let data = [0b010_011_00u8, 0b100_00101u8];
    let mut r = BitReader::new(&data);
    assert_eq!(r.read_se(), Some(1));
    assert_eq!(r.read_se(), Some(-2));
    assert_eq!(r.read_se(), Some(2));
    assert_eq!(r.read_se(), Some(-3));
}

#[test]
fn test_exp_golomb_runaway_zeros_rejected() {
    // All zeros: the reader never finds a stop bit and gives up
    let data = [0x00u8, 0x00, 0x00, 0x00, 0x00];
    let mut r = BitReader::new(&data);
    assert_eq!(r.read_ue(), None);
}

#[test]
fn test_detect_resolution_baseline_sps() {
    // A hand-assembled baseline-profile parameter set coding 64x48:
    // header, profile 66, no constraints, then the coded fields
    // seq_id=0, frame-num length 0, order type 2, refs 0, no gaps,
    // width in macroblocks 4, height in map units 3, frame-only.
    let sps = [0x67u8, 66, 0, 0b1101_1100, 0b0100_0111];
    assert_eq!(detect_resolution_from_sps(&sps).unwrap(), (64, 48));
}

#[test]
fn test_detect_resolution_interlaced_doubles_height() {
    // Same set with the frame-only flag clear: the height doubles.
    let sps = [0x67u8, 66, 0, 0b1101_1100, 0b0100_0110];
    assert_eq!(detect_resolution_from_sps(&sps).unwrap(), (64, 96));
}

#[test]
fn test_detect_resolution_short_sps_rejected() {
    assert!(detect_resolution_from_sps(&[0x67, 66]).is_err());
    assert!(detect_resolution_from_sps(&[]).is_err());
}

#[test]
fn test_detect_resolution_truncated_fields_rejected() {
    // Header only: every later field reads off the end as zeros, which
    // the exp-Golomb reader rejects.
    let sps = [0x67u8, 66, 0, 0x00];
    assert!(detect_resolution_from_sps(&sps).is_err());
}
