use cheetah_containers::annexb::demuxer::{find_start_code, is_keyframe, is_sei, nal_payload};
use cheetah_containers::annexb::param_sets::{
    H264ParameterSetCache, H265ParameterSetCache, ParameterSetCache,
};
use cheetah_containers::media::CodecId;

#[test]
fn find_start_code_detects_three_and_four_byte_codes() {
    let data = [0x00, 0x00, 0x00, 0x01, 0x67, 0x00, 0x00, 0x01, 0x68];
    assert_eq!(find_start_code(&data, 0), Some((0, 4)));
    assert_eq!(find_start_code(&data, 4), Some((5, 3)));
}

#[test]
fn find_start_code_skips_emulation_prevention() {
    let data = [
        0x00, 0x00, 0x00, 0x01, 0x01, 0x00, 0x00, 0x03, 0x01, 0x00, 0x00, 0x01, 0x02,
    ];
    assert_eq!(find_start_code(&data, 0), Some((0, 4)));
    assert_eq!(find_start_code(&data, 4), Some((9, 3)));
}

#[test]
fn find_start_code_skips_emulation_prevention_at_nal_boundary() {
    let data = [
        0x00, 0x00, 0x00, 0x01, 0x67, 0x00, 0x00, 0x03, 0x00, 0x00, 0x00, 0x01, 0x68,
    ];
    assert_eq!(find_start_code(&data, 0), Some((0, 4)));
    assert_eq!(find_start_code(&data, 4), Some((9, 3)));
}

#[test]
fn nal_payload_helper_skips_header() {
    assert_eq!(nal_payload(&[0x67, 0x42, 0x00]), &[0x42, 0x00]);
}

#[test]
fn find_start_code_returns_none_for_short_input() {
    assert_eq!(find_start_code(&[0x00, 0x00], 0), None);
    assert_eq!(find_start_code(&[0x00, 0x00, 0x00], 0), None);
}

#[test]
fn find_start_code_start_past_end_is_none() {
    let data = [0x00, 0x00, 0x01, 0x65];
    assert_eq!(find_start_code(&data, 10), None);
    assert_eq!(find_start_code(&data, usize::MAX), None);
}

#[test]
fn find_start_code_found_position_holds_a_start_code() {
    let data = [0x11, 0x00, 0x00, 0x03, 0x02, 0x00, 0x00, 0x00, 0x01, 0x41];
    let (p, len) = find_start_code(&data, 0).unwrap();
    assert_eq!((p, len), (5, 4));
    assert_eq!(&data[p..p + len], &[0x00, 0x00, 0x00, 0x01]);
}

#[test]
fn nal_classification_h264_and_h265() {
    assert!(is_sei(CodecId::H264, &[0x06, 0x05]));
    assert!(!is_sei(CodecId::H264, &[]));
    assert!(is_sei(CodecId::H265, &[39 << 1, 0x01]));
    assert!(is_sei(CodecId::H265, &[40 << 1, 0x01]));
    assert!(!is_sei(CodecId::H265, &[39 << 1]));
    assert!(!is_sei(CodecId::Aac, &[0x06]));
    assert!(is_keyframe(CodecId::H264, &[0x65]));
    assert!(!is_keyframe(CodecId::H264, &[0x41]));
    assert!(is_keyframe(CodecId::H265, &[19 << 1, 0x01]));
    assert!(!is_keyframe(CodecId::H265, &[1 << 1, 0x01]));
}

#[test]
fn h264_cache_keeps_latest_sps_and_pps() {
    let mut c = H264ParameterSetCache::new();
    assert!(!c.is_complete());
    assert!(c.consume(&[0x67, 0x42]));
    assert!(!c.is_complete());
    assert!(!c.consume(&[0x65, 0x00]));
    assert!(!c.consume(&[]));
    assert!(c.consume(&[0x68, 0xce]));
    assert!(c.is_complete());
    c.reset();
    assert!(!c.is_complete());
}

#[test]
fn h265_cache_needs_sps_and_pps_only() {
    let mut c = H265ParameterSetCache::new();
    assert!(c.consume(&[32 << 1, 0x01]));
    assert!(!c.is_complete());
    assert!(c.consume(&[33 << 1, 0x01]));
    assert!(!c.consume(&[34 << 1]));
    assert!(c.consume(&[34 << 1, 0x01]));
    assert!(c.is_complete());
}

#[test]
fn unified_cache_dispatches_on_codec() {
    let mut c = ParameterSetCache::new(CodecId::H265);
    assert!(matches!(c, ParameterSetCache::H265(_)));
    assert!(!c.consume(&[0x67, 0x42]));
    let mut d = ParameterSetCache::new(CodecId::H264);
    assert!(d.consume(&[0x67, 0x42]));
    assert!(d.consume(&[0x68, 0x42]));
    assert!(d.is_complete());
    d.reset();
    assert!(!d.is_complete());
    c.reset();
    assert!(!c.is_complete());
}
