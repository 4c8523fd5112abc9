use cheetah_containers::flv::amf::{dec_string, parse_script_tag, AmfLimits, AmfParser, AmfValue};
use cheetah_containers::flv::audio::{
    build_audio_raw_frame, sound_rate_to_hz, AudioTagHeader, SoundFormat,
};
use cheetah_containers::flv::error::FlvError;
use cheetah_containers::flv::header::{
    parse_file_header, parse_tag_header, tag_total_size, TagType,
};
use cheetah_containers::flv::legacy;
use cheetah_containers::flv::video::{
    build_video_frame, is_keyframe, FrameType, VideoCodecId, VideoTagHeader,
};
use cheetah_containers::media::{CodecId, TrackKind};

#[test]
fn audio_header_aac_config() {
    let header = AudioTagHeader::parse(&[0xaf, 0x00]).unwrap();
    assert!(matches!(header.sound_format, SoundFormat::Aac));
    assert_eq!(header.aac_packet_type, Some(0));
}

#[test]
fn audio_header_mp3() {
    let header = AudioTagHeader::parse(&[0x2a]).unwrap();
    assert!(matches!(header.sound_format, SoundFormat::Mp3));
    assert_eq!(header.sound_rate, 2);
}

#[test]
fn audio_header_errors_and_flags() {
    assert_eq!(AudioTagHeader::parse(&[]), Err(FlvError::MalformedTag));
    assert_eq!(AudioTagHeader::parse(&[0xaf]), Err(FlvError::MalformedTag));
    let h = AudioTagHeader::parse(&[0xaf, 0x01]).unwrap();
    assert!(h.is_aac_raw() && !h.is_aac_config());
    assert_eq!(h.header_size, 2);
    assert_eq!((h.sound_rate, h.sound_size, h.sound_type), (3, 1, 1));
    let g = AudioTagHeader::parse(&[0x70]).unwrap();
    assert!(matches!(g.sound_format, SoundFormat::G711A));
    assert_eq!(g.aac_packet_type, None);
    assert_eq!(sound_rate_to_hz(g.sound_rate, g.sound_format), 8000);
    assert_eq!(sound_rate_to_hz(0, SoundFormat::Mp3), 5500);
    assert_eq!(sound_rate_to_hz(3, SoundFormat::Mp3_8k), 44100);
    assert_eq!(sound_rate_to_hz(0, SoundFormat::Aac), 44100);
    assert!(matches!(SoundFormat::from_u8(9), SoundFormat::Unknown(9)));
}

#[test]
fn audio_header_byte_round_trips_through_parse() {
    let b = AudioTagHeader::build_header_byte(CodecId::Aac, 44100, 2);
    assert_eq!(b, 0xaf);
    let g = AudioTagHeader::build_header_byte(CodecId::G711U, 8000, 1);
    assert_eq!(g, 0x80);
    let frame = build_audio_raw_frame(CodecId::Mp3, 22050, 1, &[1, 2, 3]);
    assert_eq!(frame, vec![0x2a, 1, 2, 3]);
    let h = AudioTagHeader::parse(&frame).unwrap();
    assert!(matches!(h.sound_format, SoundFormat::Mp3));
    assert_eq!(h.sound_rate, 2);
}

#[test]
fn header_parse_header_ok() {
    let header = parse_file_header(b"FLV\x01\x05\x00\x00\x00\x09").expect("valid header");
    assert_eq!(header.version, 1);
    assert!(header.has_audio);
    assert!(header.has_video);
    assert_eq!(header.header_size, 9);
}

#[test]
fn header_parse_header_invalid_signature() {
    assert_eq!(
        parse_file_header(b"FLA\x01\x05\x00\x00\x00\x09"),
        Err(FlvError::InvalidSignature)
    );
}

fn tag_bytes(first: u8) -> [u8; 11] {
    let mut buf = [0u8; 11];
    buf[0] = first;
    buf[3] = 10;
    buf[6] = 0x20;
    buf
}

#[test]
fn header_parse_tag_header_ok() {
    let buf = tag_bytes(9);
    let tag = parse_tag_header(&buf).expect("valid tag header");
    assert_eq!(tag.tag_type, TagType::Video);
    assert!(!tag.filter);
    assert_eq!(tag.data_size, 10);
    assert_eq!(tag.timestamp_ms, 0x20);
}

#[test]
fn header_parse_tag_header_with_filter_bit() {
    let buf = tag_bytes(0x29);
    let tag = parse_tag_header(&buf).expect("valid tag header");
    assert_eq!(tag.tag_type, TagType::Video);
    assert!(tag.filter);
}

#[test]
fn tag_header_extended_timestamp_and_errors() {
    let mut buf = tag_bytes(8);
    buf[7] = 0x01;
    let tag = parse_tag_header(&buf).unwrap();
    assert_eq!(tag.timestamp_ms, 0x0100_0020);
    assert_eq!(tag.media_time().pts, Some(0x0100_0020));
    assert_eq!(parse_tag_header(&buf[..10]), Err(FlvError::NeedMoreData));
    assert_eq!(parse_tag_header(&tag_bytes(7)), Err(FlvError::MalformedTag));
    assert_eq!(tag_total_size(10), 21);
    assert_eq!(TagType::Audio.track_kind(), Some(TrackKind::Audio));
    assert_eq!(TagType::Script.track_kind(), None);
    assert_eq!(parse_file_header(b"FLV\x01\x05\x00\x00\x00\x08"), Err(FlvError::MalformedHeader));
    assert_eq!(parse_file_header(b"FLV"), Err(FlvError::NeedMoreData));
}

#[test]
fn lib_parse_header_ok() {
    let header =
        legacy::parse_header(b"FLV\x01\x05\x00\x00\x00\x09\x00\x00\x00\x00").expect("valid header");
    assert_eq!(header.version, 1);
    assert!(header.has_audio);
    assert!(header.has_video);
    assert_eq!(header.header_size, 9);
}

#[test]
fn lib_parse_header_invalid_signature() {
    assert_eq!(
        legacy::parse_header(b"FLA\x01\x05\x00\x00\x00\x09"),
        Err(legacy::FlvError::InvalidSignature)
    );
}

#[test]
fn lib_parse_tag_header_ok() {
    let buf = tag_bytes(9);
    let tag = legacy::parse_tag_header(&buf).expect("valid tag header");
    assert_eq!(tag.tag_type, legacy::TagType::Video);
    assert!(!tag.filter);
    assert_eq!(tag.data_size, 10);
    assert_eq!(tag.timestamp.pts, Some(32));
}

#[test]
fn lib_parse_tag_header_with_filter_bit() {
    let buf = tag_bytes(0x29);
    let tag = legacy::parse_tag_header(&buf).expect("valid tag header");
    assert_eq!(tag.tag_type, legacy::TagType::Video);
    assert!(tag.filter);
}

#[test]
fn legacy_errors_follow_read_order() {
    assert_eq!(legacy::parse_header(b"FL"), Err(legacy::FlvError::EndOfStream));
    assert_eq!(legacy::parse_header(b"FLV\x01"), Err(legacy::FlvError::EndOfStream));
    assert_eq!(legacy::parse_tag_header(&[]), Err(legacy::FlvError::EndOfStream));
    assert_eq!(legacy::parse_tag_header(&[7]), Err(legacy::FlvError::MalformedHeader));
    assert_eq!(legacy::parse_tag_header(&[8, 0]), Err(legacy::FlvError::EndOfStream));
}

#[test]
fn video_header_parse_and_build() {
    let h = VideoTagHeader::parse(&[0x17, 0x01, 0xff, 0xff, 0xfe]).unwrap();
    assert_eq!(h.frame_type, FrameType::Keyframe);
    assert_eq!(h.codec_id, VideoCodecId::H264);
    assert_eq!(h.cts_ms, -2);
    assert_eq!(h.header_size, 5);
    let built = VideoTagHeader::build_avc_hevc(FrameType::Keyframe, VideoCodecId::H264, 1, -2);
    assert_eq!(built, vec![0x17, 0x01, 0xff, 0xff, 0xfe]);
    let built = VideoTagHeader::build_avc_hevc(FrameType::Interframe, VideoCodecId::H265, 1, 40);
    assert_eq!(built, vec![0x2c, 0x01, 0x00, 0x00, 0x28]);
    let o = VideoTagHeader::parse(&[0x22]).unwrap();
    assert_eq!(o.codec_id, VideoCodecId::Other(2));
    assert_eq!(o.header_size, 1);
    assert_eq!(VideoTagHeader::parse(&[0x17, 1]), Err(FlvError::NeedMoreData));
    assert_eq!(VideoTagHeader::parse(&[]), Err(FlvError::NeedMoreData));
    let f = build_video_frame(CodecId::H264, true, 1, 0, &[9]).unwrap();
    assert_eq!(f, vec![0x17, 1, 0, 0, 0, 9]);
    assert_eq!(build_video_frame(CodecId::Aac, true, 1, 0, &[]), Err(FlvError::UnsupportedCodec));
}

#[test]
fn keyframe_detection_trusts_h264_header_and_reads_h265_nals() {
    let h264 = VideoTagHeader::parse(&[0x17, 0x01, 0, 0, 0]).unwrap();
    let idr = [0, 0, 0, 2, 0x65, 0x88];
    let non_idr = [0, 0, 0, 2, 0x41, 0x9a];
    // For H.264 the keyframe frame type is trusted whatever the payload.
    assert!(is_keyframe(&idr, &h264));
    assert!(is_keyframe(&non_idr, &h264));
    assert!(is_keyframe(&[0, 0, 0, 9, 0x65], &h264));
    let inter = VideoTagHeader::parse(&[0x27, 0x01, 0, 0, 0]).unwrap();
    assert!(!is_keyframe(&idr, &inter));
    let hevc = VideoTagHeader::parse(&[0x1c, 0x01, 0, 0, 0]).unwrap();
    assert!(is_keyframe(&[0, 0, 0, 2, 19 << 1, 0x01], &hevc));
    assert!(!is_keyframe(&[0, 0, 0, 2, 1 << 1, 0x01], &hevc));
    assert!(!is_keyframe(&[0, 0, 0, 9, 19 << 1], &hevc));
    let other = VideoTagHeader::parse(&[0x12]).unwrap();
    assert!(is_keyframe(&[], &other));
}

#[test]
fn amf_reads_strings_and_numbers() {
    let limits = AmfLimits::default();
    assert_eq!(limits.max_string_len, 1024);
    let data = [0x00, 0x05, b'h', b'e', b'l', b'l', b'o', 0x12, 0x34, 0x00, 0x00, 0x00, 0x01];
    let mut p = AmfParser::new(&data, limits);
    assert_eq!(p.read_string().unwrap(), "hello");
    assert_eq!(p.read_u16_be().unwrap(), 0x1234);
    assert_eq!(p.read_u32_be().unwrap(), 1);
    assert_eq!(p.remaining(), 0);
    assert_eq!(p.read_u8(), Err(FlvError::NeedMoreData));
    let bad = [0x00, 0x02, 0xff, 0xfe];
    let mut q = AmfParser::new(&bad, limits);
    assert_eq!(q.read_string(), Err(FlvError::InvalidAmf));
    let long = [0x00, 0x00, 0x00, 0x02, b'o', b'k'];
    let mut r = AmfParser::new(&long, limits);
    assert_eq!(r.read_long_string().unwrap(), "ok");
    let mut small = limits;
    small.max_string_len = 1;
    let mut s = AmfParser::new(&long, small);
    assert_eq!(s.read_long_string(), Err(FlvError::LimitExceeded));
    assert_eq!(s.remaining(), 2);
    assert_eq!(s.ensure(3), Err(FlvError::NeedMoreData));
}

fn build_onmetadata_number(name: &str, value: f64) -> Vec<u8> {
    let mut out = Vec::new();
    let name_bytes = name.as_bytes();
    out.extend_from_slice(&(name_bytes.len() as u16).to_be_bytes());
    out.extend_from_slice(name_bytes);
    out.push(0x00);
    out.extend_from_slice(&value.to_be_bytes());
    out
}

fn build_number(value: f64) -> Vec<u8> {
    let mut out = Vec::new();
    out.push(0x00);
    out.extend_from_slice(&value.to_be_bytes());
    out
}

fn number_of(v: Option<&AmfValue>) -> Option<f64> {
    match v {
        Some(AmfValue::Number(bits)) => Some(f64::from_bits(*bits)),
        Some(AmfValue::Boolean(b)) => Some(if *b { 1.0 } else { 0.0 }),
        _ => None,
    }
}

#[test]
fn parse_number_property() {
    let data = build_number(1920.0);
    let mut parser = AmfParser::new(&data, AmfLimits::default());
    let value = parser.parse_value().unwrap();
    assert_eq!(number_of(Some(&value)), Some(1920.0));
}

#[test]
fn parse_onmetadata_array() {
    let mut data = Vec::new();
    data.push(0x02);
    let name = b"onMetaData";
    data.extend_from_slice(&(name.len() as u16).to_be_bytes());
    data.extend_from_slice(name);
    data.push(0x08);
    data.extend_from_slice(&3u32.to_be_bytes());
    data.extend_from_slice(build_onmetadata_number("duration", 60.0).as_slice());
    data.extend_from_slice(build_onmetadata_number("width", 1920.0).as_slice());
    data.extend_from_slice(build_onmetadata_number("height", 1080.0).as_slice());
    data.extend_from_slice(&[0x00, 0x00, 0x09]);

    let (method, value) = parse_script_tag(&data, AmfLimits::default()).unwrap();
    assert_eq!(method, "onMetaData");
    assert_eq!(number_of(value.get("width")), Some(1920.0));
    assert_eq!(number_of(value.get("height")), Some(1080.0));
    assert_eq!(number_of(value.get("duration")).map(|d| (d * 1000.0) as u64), Some(60_000));
}

#[test]
fn amf_object_ends_at_marker_and_nests() {
    // Object { "a": true, "o": Object { "s": "hi" } } followed by a null.
    let mut data = vec![0x03];
    data.extend_from_slice(&[0x00, 0x01, b'a', 0x01, 0x01]);
    data.extend_from_slice(&[0x00, 0x01, b'o', 0x03]);
    data.extend_from_slice(&[0x00, 0x01, b's', 0x02, 0x00, 0x02, b'h', b'i']);
    data.extend_from_slice(&[0x00, 0x00, 0x09]);
    data.extend_from_slice(&[0x00, 0x00, 0x09]);
    data.push(0x05);
    let mut p = AmfParser::new(&data, AmfLimits::default());
    let v = p.parse_value().unwrap();
    assert_eq!(v.get("a"), Some(&AmfValue::Boolean(true)));
    let inner = v.get("o").unwrap();
    assert_eq!(inner.get("s").and_then(|s| s.as_str()), Some("hi"));
    assert_eq!(v.get("missing"), None);
    assert_eq!(p.parse_value(), Ok(AmfValue::Null));
    assert_eq!(p.parse_value(), Err(FlvError::NeedMoreData));
}

#[test]
fn amf_strict_array_names_items_by_index() {
    let mut data = vec![0x0a, 0, 0, 0, 12];
    for _ in 0..12 {
        data.push(0x05);
    }
    let mut p = AmfParser::new(&data, AmfLimits::default());
    match p.parse_value().unwrap() {
        AmfValue::Array(items) => {
            assert_eq!(items.len(), 12);
            assert_eq!(items[0].0, "0");
            assert_eq!(items[11].0, "11");
        }
        other => panic!("unexpected {:?}", other),
    }
    assert_eq!(dec_string(1234), "1234");
    assert_eq!(dec_string(0), "0");
}

#[test]
fn amf_limits_are_enforced() {
    // Depth: an object inside an object with a depth limit of 1.
    let nested = vec![0x03, 0x00, 0x01, b'x', 0x03, 0x00, 0x01, b'y', 0x03];
    let mut limits = AmfLimits::default();
    limits.max_depth = 1;
    let mut p = AmfParser::new(&nested, limits);
    assert_eq!(p.parse_value(), Err(FlvError::InvalidAmf));

    // Properties: a second property in an object limited to one.
    let two = vec![
        0x03, 0x00, 0x01, b'a', 0x05, 0x00, 0x01, b'b', 0x05, 0x00, 0x00, 0x09,
    ];
    let mut one = AmfLimits::default();
    one.max_properties = 1;
    let mut p = AmfParser::new(&two, one);
    assert_eq!(p.parse_value(), Err(FlvError::LimitExceeded));

    // ECMA array counts are capped by the property limit.
    let ecma = vec![0x08, 0, 0, 0, 5, 0x00, 0x01, b'a', 0x05, 0x00, 0x01, b'b', 0x05];
    let mut p = AmfParser::new(&ecma, one);
    match p.parse_value().unwrap() {
        AmfValue::Array(items) => assert_eq!(items.len(), 1),
        other => panic!("unexpected {:?}", other),
    }

    // Unknown markers are unsupported after the marker alone.
    let mut p = AmfParser::new(&[0x0c, 0x05], AmfLimits::default());
    assert_eq!(p.parse_value(), Ok(AmfValue::Unsupported));
    assert_eq!(p.parse_value(), Ok(AmfValue::Null));
}

#[test]
fn script_tag_needs_a_string_name() {
    assert_eq!(parse_script_tag(&[], AmfLimits::default()), Err(FlvError::NeedMoreData));
    assert_eq!(parse_script_tag(&[0x05], AmfLimits::default()), Err(FlvError::InvalidAmf));
    assert_eq!(
        parse_script_tag(&[0x02, 0x00, 0x01, b'x'], AmfLimits::default()),
        Err(FlvError::NeedMoreData)
    );
}

#[test]
fn video_header_round_trips_through_build_and_parse() {
    for (ft, codec, cts) in [
        (FrameType::Keyframe, VideoCodecId::H264, -8_388_608),
        (FrameType::Disposable, VideoCodecId::H265, 8_388_607),
        (FrameType::Info, VideoCodecId::H264, 0),
    ] {
        let mut bytes = VideoTagHeader::build_avc_hevc(ft, codec, 2, cts);
        bytes.extend_from_slice(&[0xaa, 0xbb]);
        let h = VideoTagHeader::parse(&bytes).unwrap();
        assert_eq!(
            h,
            VideoTagHeader { frame_type: ft, codec_id: codec, packet_type: 2, cts_ms: cts, header_size: 5 }
        );
    }
}

#[test]
fn audio_header_round_trips_through_build_and_parse() {
    let frame = build_audio_raw_frame(CodecId::G711U, 8000, 1, &[5]);
    let h = AudioTagHeader::parse(&frame).unwrap();
    assert_eq!(h.sound_format, SoundFormat::G711U);
    assert_eq!(h.sound_format.to_codec_id(), Some(CodecId::G711U));
    assert_eq!((h.sound_rate, h.sound_size, h.sound_type, h.header_size), (0, 0, 0, 1));
    let frame = build_audio_raw_frame(CodecId::Aac, 44100, 2, &[1, 0x21]);
    let h = AudioTagHeader::parse(&frame).unwrap();
    assert_eq!(h.sound_format, SoundFormat::Aac);
    assert_eq!(h.aac_packet_type, Some(1));
    assert_eq!((h.sound_rate, h.sound_size, h.sound_type, h.header_size), (3, 1, 1, 2));
}

use cheetah_containers::flv::muxer::{build_aac_config, build_video_config, FlvMuxer};
use cheetah_containers::media::{
    AudioFormat, CodecConfig, MediaPacket, MediaTime, PacketFlags, TimeBase, TrackInfo,
};

fn ms() -> TimeBase {
    TimeBase { num: 1, den: 1000 }
}

fn aac_track() -> TrackInfo {
    let mut t = TrackInfo::new(1, TrackKind::Audio, CodecId::Aac, ms());
    t.codec_config = CodecConfig::AacAudioSpecificConfig(vec![0x12, 0x10]);
    t.audio_format = Some(AudioFormat { sample_rate: 44100, channels: 2 });
    t
}

fn avc_track() -> TrackInfo {
    let mut t = TrackInfo::new(2, TrackKind::Video, CodecId::H264, ms());
    t.codec_config = CodecConfig::AvcC(vec![1, 0x42, 0, 0x1e]);
    t
}

fn packet(track_id: u32, pts: i64, dts: i64, key: bool, payload: Vec<u8>) -> MediaPacket {
    MediaPacket {
        payload,
        track_id,
        stream_epoch: 0,
        sequence: 0,
        time: MediaTime::from_ticks(Some(pts), Some(dts), None, ms()),
        flags: PacketFlags { is_keyframe: key, is_corrupt: false, is_discontinuity: false },
    }
}

/// The tags after the file header: (type, data size, timestamp, data).
fn tags(bytes: &[u8], file_mode: bool) -> Vec<(u8, usize, u32, Vec<u8>)> {
    let mut out = Vec::new();
    let mut off = if file_mode { 13 } else { 9 };
    while off + 11 <= bytes.len() {
        let ty = bytes[off];
        let size = ((bytes[off + 1] as usize) << 16) | ((bytes[off + 2] as usize) << 8) | bytes[off + 3] as usize;
        let ts = ((bytes[off + 7] as u32) << 24)
            | ((bytes[off + 4] as u32) << 16)
            | ((bytes[off + 5] as u32) << 8)
            | bytes[off + 6] as u32;
        let data = bytes[off + 11..off + 11 + size].to_vec();
        out.push((ty, size, ts, data));
        off += 11 + size + if file_mode { 4 } else { 0 };
    }
    out
}

#[test]
fn muxer_writes_header_configs_and_packets_in_dts_order() {
    let audio = aac_track();
    let video = avc_track();
    let mut muxer = FlvMuxer::new(true, 32);
    muxer.add_track(&video).unwrap();
    muxer.add_track(&audio).unwrap();
    muxer.push_packet(packet(2, 150, 100, true, vec![0, 0, 0, 2, 0x65, 0x88]), &video).unwrap();
    muxer.push_packet(packet(1, 120, 120, false, vec![0x12, 0x34]), &audio).unwrap();
    muxer.push_packet(packet(1, 90, 90, false, vec![0x56]), &audio).unwrap();
    let bytes = muxer.finish().unwrap();
    // Header: signature, version, audio and video flags, size 9, first tag size.
    assert_eq!(&bytes[..13], &[b'F', b'L', b'V', 1, 5, 0, 0, 0, 9, 0, 0, 0, 0]);
    let t = tags(&bytes, true);
    assert_eq!(t.len(), 5);
    // Video configuration, then audio configuration.
    assert_eq!((t[0].0, t[0].2), (9, 0));
    assert_eq!(t[0].3, vec![0x17, 0, 0, 0, 0, 1, 0x42, 0, 0x1e]);
    assert_eq!((t[1].0, t[1].2), (8, 0));
    assert_eq!(t[1].3, vec![0xaf, 0, 0x12, 0x10]);
    // Packets by decode time: 90, 100, 120.
    assert_eq!((t[2].0, t[2].2, t[2].3.clone()), (8, 90, vec![0xaf, 1, 0x56]));
    assert_eq!((t[3].0, t[3].2), (9, 100));
    assert_eq!(t[3].3, vec![0x17, 1, 0, 0, 50, 0, 0, 0, 2, 0x65, 0x88]);
    assert_eq!((t[4].0, t[4].2, t[4].3.clone()), (8, 120, vec![0xaf, 1, 0x12, 0x34]));
    // The final previous-tag size covers the last tag.
    let n = bytes.len();
    assert_eq!(&bytes[n - 4..], &(11u32 + 4).to_be_bytes());
}

#[test]
fn muxer_flushes_when_queue_exceeds_depth() {
    let audio = aac_track();
    let mut muxer = FlvMuxer::new(false, 1);
    muxer.push_packet(packet(1, 20, 20, false, vec![2]), &audio).unwrap();
    // Header and configuration only: one packet waits.
    assert_eq!(tags(muxer.output(), false).len(), 1);
    muxer.push_packet(packet(1, 10, 10, false, vec![1]), &audio).unwrap();
    // Over the limit: the older one (decode time 10) is written.
    let t = tags(muxer.output(), false);
    assert_eq!(t.len(), 2);
    assert_eq!((t[1].2, t[1].3.clone()), (10, vec![0xaf, 1, 1]));
    let taken = muxer.take_output();
    assert!(taken.starts_with(b"FLV"));
    assert!(muxer.output().is_empty());
}

#[test]
fn muxer_reports_missing_configuration_and_codec() {
    let mut audio = aac_track();
    audio.codec_config = CodecConfig::Unset;
    let mut muxer = FlvMuxer::new(true, 4);
    assert_eq!(
        muxer.push_packet(packet(1, 0, 0, false, vec![1]), &audio),
        Err(FlvError::MalformedTag)
    );
    assert_eq!(build_aac_config(&audio), Err(FlvError::MalformedTag));
    let opus = TrackInfo::new(3, TrackKind::Video, CodecId::Opus, ms());
    assert_eq!(build_video_config(&opus), Err(FlvError::UnsupportedCodec));
}

#[test]
fn muxer_rejects_composition_offset_beyond_i32() {
    let video = avc_track();
    let mut muxer = FlvMuxer::new(false, 0);
    let r = muxer.push_packet(packet(2, 1i64 << 40, 0, true, vec![1]), &video);
    assert_eq!(r, Err(FlvError::InvalidTimestamp));
}

#[test]
fn media_time_converts_ticks_to_milliseconds() {
    let t = MediaTime::from_ticks(Some(90_000), Some(-45_000), None, TimeBase { num: 1, den: 90_000 });
    assert_eq!(t.pts_ms(), Some(1000));
    assert_eq!(t.dts_ms(), Some(-500));
    let z = MediaTime::from_ticks(Some(1), None, None, TimeBase { num: 1, den: 0 });
    assert_eq!(z.pts_ms(), None);
    assert_eq!(z.dts_ms(), None);
}

#[test]
fn muxer_output_reads_back_with_the_header_parsers() {
    let video = avc_track();
    let mut muxer = FlvMuxer::new(true, 0);
    muxer.add_track(&video).unwrap();
    muxer.push_packet(packet(2, 0x0123_4567, 0x0123_4567, true, vec![9; 7]), &video).unwrap();
    let bytes = muxer.finish().unwrap();
    let h = parse_file_header(&bytes).unwrap();
    assert_eq!((h.version, h.has_audio, h.has_video, h.header_size), (1, false, true, 9));
    // Configuration tag, then the packet's tag with its extended timestamp.
    let cfg = parse_tag_header(&bytes[13..]).unwrap();
    assert_eq!((cfg.tag_type, cfg.filter, cfg.data_size, cfg.timestamp_ms), (TagType::Video, false, 9, 0));
    let next = 13 + 11 + 9 + 4;
    let t = parse_tag_header(&bytes[next..]).unwrap();
    assert_eq!((t.tag_type, t.data_size, t.timestamp_ms, t.stream_id), (TagType::Video, 12, 0x0123_4567, 0));
}

fn nested_objects(levels: usize) -> Vec<u8> {
    // `levels` objects, each holding the next under the key "x", the innermost holding null.
    let mut data = Vec::new();
    for _ in 0..levels {
        data.extend_from_slice(&[0x03, 0x00, 0x01, b'x']);
    }
    data.push(0x05);
    for _ in 0..levels {
        data.extend_from_slice(&[0x00, 0x00, 0x09]);
    }
    data
}

#[test]
fn amf_depth_limit_of_255_is_honoured() {
    let mut limits = AmfLimits::default();
    limits.max_depth = 255;
    let ok = nested_objects(255);
    let mut p = AmfParser::new(&ok, limits);
    assert!(p.parse_value().is_ok());
    let deep = nested_objects(256);
    let mut p = AmfParser::new(&deep, limits);
    assert_eq!(p.parse_value(), Err(FlvError::InvalidAmf));
}

use cheetah_containers::flv::transmux::{track_info_to_config, TransmuxError};
use cheetah_containers::isobmff::types as mp4_types;
use cheetah_containers::media::VideoFormat;

#[test]
fn flv_track_config_for_h264_uses_millisecond_clock_and_default_size() {
    let mut info = TrackInfo::new(1, TrackKind::Video, CodecId::H264, TimeBase::millis());
    info.codec_config = CodecConfig::AvcC(vec![1, 0x64, 0, 0x1f]);
    let c = track_info_to_config(&info).unwrap();
    assert_eq!(c.track_id, 1);
    assert_eq!(c.sample_entry_type, mp4_types::AVC1);
    assert_eq!((c.timescale, c.default_sample_duration), (1000, 33));
    assert_eq!((c.width, c.height), (640, 360));
    assert_eq!(c.codec_config, CodecConfig::AvcC(vec![1, 0x64, 0, 0x1f]));
}

#[test]
fn flv_track_config_takes_visible_size_and_rejects_oversize() {
    let mut info = TrackInfo::new(2, TrackKind::Video, CodecId::H265, TimeBase::millis());
    info.codec_config = CodecConfig::HevcC(vec![1]);
    info.video_format = Some(VideoFormat {
        coded_width: 1920,
        coded_height: 1088,
        visible_width: 1920,
        visible_height: 1080,
    });
    let c = track_info_to_config(&info).unwrap();
    assert_eq!(c.sample_entry_type, mp4_types::HVC1);
    assert_eq!((c.width, c.height), (1920, 1080));
    info.video_format = Some(VideoFormat {
        coded_width: 70_000,
        coded_height: 720,
        visible_width: 70_000,
        visible_height: 720,
    });
    let c = track_info_to_config(&info).unwrap();
    assert_eq!((c.width, c.height), (640, 720));
}

#[test]
fn flv_track_config_for_aac_clocks_at_sample_rate() {
    let mut info = TrackInfo::new(3, TrackKind::Audio, CodecId::Aac, TimeBase::millis());
    info.codec_config = CodecConfig::AacAudioSpecificConfig(vec![0x11, 0x88]);
    info.audio_format = Some(AudioFormat { sample_rate: 48_000, channels: 1 });
    let c = track_info_to_config(&info).unwrap();
    assert_eq!(c.sample_entry_type, mp4_types::MP4A);
    assert_eq!((c.timescale, c.sample_rate, c.channel_count), (48_000, 48_000, 1));
    assert_eq!(c.default_sample_duration, 1024);
    info.audio_format = None;
    let c = track_info_to_config(&info).unwrap();
    assert_eq!((c.timescale, c.channel_count), (44_100, 2));
    info.audio_format = Some(AudioFormat { sample_rate: 0, channels: 0 });
    let c = track_info_to_config(&info).unwrap();
    assert_eq!((c.timescale, c.channel_count), (1, 1));
}

#[test]
fn flv_track_config_rejects_other_codecs() {
    let info = TrackInfo::new(4, TrackKind::Audio, CodecId::Opus, TimeBase::millis());
    assert!(matches!(track_info_to_config(&info), Err(TransmuxError::UnsupportedCodec)));
    // H.264 without its avcC record is not enough either.
    let info = TrackInfo::new(5, TrackKind::Video, CodecId::H264, TimeBase::millis());
    assert!(matches!(track_info_to_config(&info), Err(TransmuxError::UnsupportedCodec)));
}

use cheetah_containers::flv::recorder::FlvRecorderCore;

fn recorder_video_track() -> TrackInfo {
    // AVC decoder configuration record: baseline 3.0, 4-byte lengths, one SPS, one PPS.
    let avcc = vec![
        1, 0x42, 0x00, 0x1e, 0xff, 0xe1, 0x00, 0x04, 0x67, 0x42, 0x00, 0x1e, 0x01, 0x00, 0x04, 0x68,
        0xce, 0x3c, 0x80,
    ];
    let mut track = TrackInfo::new(1, TrackKind::Video, CodecId::H264, TimeBase::millis());
    track.codec_config = CodecConfig::AvcC(avcc);
    track.video_format = Some(VideoFormat {
        coded_width: 320,
        coded_height: 240,
        visible_width: 320,
        visible_height: 240,
    });
    track
}

fn recorder_packet(track: &TrackInfo) -> MediaPacket {
    MediaPacket {
        payload: vec![0x00, 0x00, 0x00, 0x02, 0x65, 0x88],
        track_id: track.id,
        stream_epoch: 0,
        sequence: 0,
        time: MediaTime::from_ticks(Some(100), Some(100), None, TimeBase::millis()),
        flags: PacketFlags { is_keyframe: true, is_corrupt: false, is_discontinuity: false },
    }
}

#[test]
fn recorder_flushes_incrementally_and_finalizes() {
    let track = recorder_video_track();
    let mut out = Vec::new();
    // Flush after every byte produced.
    let mut recorder = FlvRecorderCore::new(true, 32, 1);
    recorder.add_track(&track).unwrap();
    if let Some(chunk) = recorder.push_packet(recorder_packet(&track), &track).unwrap() {
        out.extend_from_slice(&chunk);
    }
    let (pending, rest) = recorder.stop();
    if let Some(chunk) = pending {
        out.extend_from_slice(&chunk);
    }
    out.extend_from_slice(&rest.unwrap());
    assert!(out.starts_with(b"FLV"));
    // Final bytes should contain a valid FLV file end.
    assert!(!out.is_empty());
}

#[test]
fn recorder_cancel_returns_partial() {
    let track = recorder_video_track();
    // Large threshold so nothing flushes.
    let mut recorder = FlvRecorderCore::new(true, 32, 64 * 1024);
    recorder.add_track(&track).unwrap();
    assert!(recorder.push_packet(recorder_packet(&track), &track).unwrap().is_none());
    let cancel = recorder.cancel();
    // The muxer has already emitted the header and config tag, but the
    // media packet is still held in the bounded reorder queue.
    assert!(!cancel.partial_output.is_empty());
    assert_eq!(cancel.unflushed_packets, 1);
}

#[test]
fn recorder_hands_out_output_once_it_reaches_the_threshold() {
    let track = recorder_video_track();
    let mut recorder = FlvRecorderCore::new(true, 32, 1);
    recorder.add_track(&track).unwrap();
    let chunk = recorder.push_packet(recorder_packet(&track), &track).unwrap().unwrap();
    // Header and the configuration tag; the packet waits in the queue.
    assert_eq!(&chunk[..3], b"FLV");
    assert!(recorder.flush().is_none());
    let (pending, rest) = recorder.stop();
    assert!(pending.is_none());
    let tail = rest.unwrap();
    // The queued packet's tag comes with the trailer.
    assert!(tail.windows(2).any(|w| w == [0x65, 0x88]));
    assert!(!chunk.windows(2).any(|w| w == [0x65, 0x88]));
}

#[test]
fn recorder_refuses_conflicting_or_unknown_tracks() {
    let track = recorder_video_track();
    let mut recorder = FlvRecorderCore::new(false, 4, 1024);
    recorder.add_track(&track).unwrap();
    // Registering the same track again is fine.
    recorder.add_track(&track).unwrap();
    let mut other = track.clone();
    other.codec_config = CodecConfig::AvcC(vec![1, 0x64, 0, 0x1f]);
    assert_eq!(recorder.add_track(&other), Err(FlvError::UnsupportedCodec));
    let mut unknown = aac_track();
    unknown.id = 9;
    let p = packet(unknown.id, 0, 0, true, vec![1]);
    assert_eq!(recorder.push_packet(p, &unknown), Err(FlvError::UnsupportedCodec));
}
