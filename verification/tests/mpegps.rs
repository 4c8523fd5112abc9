use cheetah_containers::mpegps::demuxer::is_private_stream;
use cheetah_containers::mpegps::error::MpegPsError;
use cheetah_containers::mpegps::pack::{
    is_pack_start_code, is_system_start_code, parse_pack_header, PackHeader,
};
use cheetah_containers::mpegps::pes::{is_audio_stream, is_video_stream, map_pes_error, parse_pes_header};
use cheetah_containers::mpegps::scan::{find_ps_boundary, find_start_code};
use cheetah_containers::mpegts::error::TsError;

#[test]
fn find_start_code_basic() {
    let data = [0x00, 0x00, 0x01, 0xE0, 0x00, 0x00, 0x01, 0xE1];
    assert_eq!(find_start_code(&data, 0), Some(0));
    assert_eq!(find_start_code(&data, 3), Some(4));
}

#[test]
fn find_ps_boundary_ignores_nal_headers() {
    let data = [
        0x00, 0x00, 0x01, 0xE0, 0x00, 0x10, 0x00, 0x00, 0x00, 0x01, 0x67, 0x00, 0x00, 0x01, 0xC0,
    ];
    assert_eq!(find_ps_boundary(&data, 6), Some(11));
}

#[test]
fn find_ps_boundary_four_byte_code() {
    let data = [0x12, 0x00, 0x00, 0x00, 0x01, 0xBA];
    assert_eq!(find_ps_boundary(&data, 0), Some(1));
    assert_eq!(find_ps_boundary(&data[..5], 0), None);
    assert_eq!(find_start_code(&[0x00, 0x00], 0), None);
    assert_eq!(find_start_code(&[0x00, 0x00, 0x01], 9), None);
}

#[test]
fn pack_header_with_stuffing() {
    let mut data = vec![0x00, 0x00, 0x01, 0xBA, 0x44, 0, 4, 0, 4, 1, 1, 0x89, 0xC3, 0xFA];
    data.extend_from_slice(&[0xFF, 0xFF]);
    assert_eq!(parse_pack_header(&data), Ok(PackHeader { end_offset: 16 }));
    assert_eq!(parse_pack_header(&data[..15]), Err(MpegPsError::NeedMoreData));
    assert_eq!(parse_pack_header(&data[..13]), Err(MpegPsError::NeedMoreData));
    let mut bad = data.clone();
    bad[3] = 0xBB;
    assert_eq!(parse_pack_header(&bad), Err(MpegPsError::InvalidInput));
}

#[test]
fn stream_id_classes() {
    assert!(is_pack_start_code(0xBA));
    assert!(!is_pack_start_code(0xBB));
    for c in [0xBBu8, 0xBC, 0xBE, 0xBF] {
        assert!(is_system_start_code(c));
    }
    assert!(!is_system_start_code(0xBD));
    assert!(is_video_stream(0xE0) && is_video_stream(0xEF) && !is_video_stream(0xF0));
    assert!(is_audio_stream(0xC0) && is_audio_stream(0xDF) && is_audio_stream(0xBD));
    assert!(!is_audio_stream(0xE0));
    assert!(is_private_stream(0xBF) && is_private_stream(0xF0) && is_private_stream(0xFE));
    assert!(!is_private_stream(0xFF) && !is_private_stream(0xBD));
}

#[test]
fn pes_errors_map_to_program_stream_errors() {
    assert_eq!(map_pes_error(TsError::NeedMoreData), MpegPsError::NeedMoreData);
    assert_eq!(map_pes_error(TsError::PacketTooShort), MpegPsError::NeedMoreData);
    assert_eq!(map_pes_error(TsError::LostSync), MpegPsError::InvalidInput);
    assert_eq!(
        map_pes_error(TsError::LimitExceeded { limit: "x" }),
        MpegPsError::PacketTooLarge { size: 0, max: 4 * 1024 * 1024 }
    );
    assert_eq!(parse_pes_header(&[0x00, 0x00, 0x01]), Err(MpegPsError::NeedMoreData));
    assert_eq!(
        parse_pes_header(&[0x00, 0x00, 0x02, 0xE0, 0, 0, 0x80, 0, 0]),
        Err(MpegPsError::InvalidInput)
    );
    let h = parse_pes_header(&[0x00, 0x00, 0x01, 0xE0, 0, 3, 0x80, 0, 0]).unwrap();
    assert_eq!(h.stream_id, 0xE0);
    assert_eq!(h.header_size, 9);
}

use cheetah_containers::media::Timestamp;
use cheetah_containers::mpegps::demuxer::{MpegPsConfig, MpegPsDemuxer, PsEvent};

fn make_video_pes(payload: &[u8]) -> Vec<u8> {
    let mut pes = Vec::new();
    pes.extend_from_slice(&[0x00, 0x00, 0x01, 0xE0]);
    let header_and_payload_len = 3 + 5 + payload.len();
    pes.push((header_and_payload_len >> 8) as u8);
    pes.push((header_and_payload_len & 0xFF) as u8);
    pes.push(0x81);
    pes.push(0x80);
    pes.push(0x05);
    pes.extend_from_slice(&[0x21, 0x00, 0x01, 0x00, 0x01]);
    pes.extend_from_slice(payload);
    pes
}

fn collect_events(demuxer: &mut MpegPsDemuxer) -> Vec<PsEvent> {
    let mut out = Vec::new();
    loop {
        match demuxer.next_event() {
            Ok(Some(PsEvent::Eof)) => break,
            Ok(Some(e)) => out.push(e),
            Ok(None) => break,
            Err(MpegPsError::NeedMoreData) => break,
            Err(e) => panic!("demuxer error: {:?}", e),
        }
    }
    out
}

fn video_payloads(events: Vec<PsEvent>) -> Vec<Vec<u8>> {
    events
        .into_iter()
        .filter_map(|e| match e {
            PsEvent::Video { payload, .. } => Some(payload),
            _ => None,
        })
        .collect()
}

#[test]
fn pack_header_with_stuffing_is_skipped() {
    let mut data = Vec::new();
    data.extend_from_slice(&[0x00, 0x00, 0x01, 0xBA]);
    data.extend_from_slice(&[0x44, 0x00, 0x04, 0x00, 0x04, 0x01, 0x86, 0x66, 0xCF, 0xF3]);
    data.extend_from_slice(&[0xFF, 0xFF, 0xFF]);
    data.extend_from_slice(&make_video_pes(&[0x00, 0x00, 0x00, 0x01, 0x09]));

    let mut demuxer = MpegPsDemuxer::new(MpegPsConfig::h264());
    demuxer.push(&data);
    demuxer.end().unwrap();
    let payloads = video_payloads(collect_events(&mut demuxer));
    assert_eq!(payloads, vec![vec![0x00, 0x00, 0x00, 0x01, 0x09]]);
}

#[test]
fn system_header_is_skipped() {
    let mut data = Vec::new();
    data.extend_from_slice(&[0x00, 0x00, 0x01, 0xBB, 0x00, 0x09]);
    data.extend_from_slice(&[0xC3, 0x33, 0x67, 0x00, 0x21, 0xFF, 0xE2, 0xE0, 0xE6]);
    data.extend_from_slice(&make_video_pes(&[0x00, 0x00, 0x00, 0x01, 0x09]));

    let mut demuxer = MpegPsDemuxer::new(MpegPsConfig::h264());
    demuxer.push(&data);
    demuxer.end().unwrap();
    assert!(!video_payloads(collect_events(&mut demuxer)).is_empty());
}

#[test]
fn empty_input_returns_need_more() {
    let mut demuxer = MpegPsDemuxer::new(MpegPsConfig::h264());
    assert_eq!(demuxer.next_event().unwrap(), None);
}

#[test]
fn malformed_start_code_is_recovered() {
    let mut data = Vec::new();
    data.extend_from_slice(&[0xDE, 0xAD, 0xBE, 0xEF]);
    data.extend_from_slice(&[
        0x00, 0x00, 0x01, 0xBA, 0x44, 0x00, 0x04, 0x00, 0x04, 0x01, 0x86, 0x66, 0xCF, 0xF8,
    ]);
    data.extend_from_slice(&make_video_pes(&[0x00, 0x00, 0x00, 0x01, 0x09]));

    let mut demuxer = MpegPsDemuxer::new(MpegPsConfig::h264());
    demuxer.push(&data);
    demuxer.end().unwrap();
    assert!(!video_payloads(collect_events(&mut demuxer)).is_empty());
}

#[test]
fn program_end_code_emits_eof() {
    let data = [0x00, 0x00, 0x01, 0xB9];
    let mut demuxer = MpegPsDemuxer::new(MpegPsConfig::h264());
    demuxer.push(&data);
    let event = demuxer.next_event().unwrap();
    assert_eq!(event, Some(PsEvent::Eof));
    assert_eq!(demuxer.next_event().unwrap(), None);
}

#[test]
fn partial_packet_waits_for_more_data() {
    let data = [
        0x00, 0x00, 0x01, 0xBA, 0x44, 0x00, 0x04, 0x00, 0x04, 0x01, 0x86, 0x66, 0xCF, 0xF8,
    ];
    let mut demuxer = MpegPsDemuxer::new(MpegPsConfig::h264());
    demuxer.push(&data);
    assert_eq!(demuxer.next_event().unwrap(), None);
}

#[test]
fn unbounded_video_pes_flushes_at_eof() {
    let mut data = Vec::new();
    data.extend_from_slice(&[0x00, 0x00, 0x01, 0xBA]);
    data.extend_from_slice(&[0x44, 0x00, 0x04, 0x00, 0x04, 0x01, 0x86, 0x66, 0xCF, 0xF8]);
    data.extend_from_slice(&[0x00, 0x00, 0x01, 0xE0, 0x00, 0x00]);
    data.push(0x81);
    data.push(0x80);
    data.push(0x05);
    data.extend_from_slice(&[0x21, 0x00, 0x01, 0x00, 0x01]);
    data.extend_from_slice(&[0x00, 0x00, 0x00, 0x01, 0x09]);

    let mut demuxer = MpegPsDemuxer::new(MpegPsConfig::h264());
    demuxer.push(&data);
    assert_eq!(demuxer.next_event().unwrap(), None);
    demuxer.end().unwrap();
    let events = collect_events(&mut demuxer);
    assert_eq!(
        events,
        vec![PsEvent::Video {
            stream_id: 0xE0,
            pts: Some(Timestamp::new(0)),
            dts: None,
            payload: vec![0x00, 0x00, 0x00, 0x01, 0x09],
        }]
    );
}

#[test]
fn private_stream_and_audio_payloads() {
    let mut data = vec![0x00, 0x00, 0x01, 0xBF, 0x00, 0x01, 0x55];
    data.extend_from_slice(&[0x00, 0x00, 0x01, 0xF0, 0x00, 0x02, 0xAA, 0xBB]);
    let mut audio = vec![0x00, 0x00, 0x01, 0xC0, 0x00, 0x04, 0x80, 0x00, 0x00, 0x7F];
    data.append(&mut audio);
    let mut demuxer = MpegPsDemuxer::new(MpegPsConfig::default());
    demuxer.push(&data);
    assert_eq!(
        demuxer.next_event().unwrap(),
        Some(PsEvent::Metadata { stream_id: 0xF0, payload: vec![0xAA, 0xBB] })
    );
    assert_eq!(
        demuxer.next_event().unwrap(),
        Some(PsEvent::Audio { stream_id: 0xC0, pts: None, dts: None, payload: vec![0x7F] })
    );
    assert_eq!(demuxer.next_event().unwrap(), None);
}

#[test]
fn oversized_packets_and_buffers_are_refused() {
    let mut cfg = MpegPsConfig::h265();
    cfg.max_packet_size_bytes = 10;
    let mut demuxer = MpegPsDemuxer::new(cfg);
    demuxer.push(&[0x00, 0x00, 0x01, 0xE0, 0x00, 0x10]);
    assert_eq!(
        demuxer.next_event(),
        Err(MpegPsError::PacketTooLarge { size: 22, max: 10 })
    );
    cfg.max_buffer_bytes = 4;
    let mut small = MpegPsDemuxer::new(cfg);
    small.push(&[1, 2, 3, 4, 5]);
    assert_eq!(small.next_event(), Err(MpegPsError::BufferExceeded { max: 4 }));
    small.reset();
    assert_eq!(small.next_event(), Ok(None));
}

use cheetah_containers::media::{MediaTime, TimeBase};
use cheetah_containers::mpegps::audio::AudioFrames;

fn pes_time(pts: i64) -> MediaTime {
    MediaTime::from_ticks(Some(pts), Some(pts), None, TimeBase { num: 1, den: 90_000 })
}

#[test]
fn audio_frames_carry_a_partial_frame_with_its_time() {
    let mut a = AudioFrames::new(1024);
    // One 7-byte frame, then 3 bytes of the next.
    let p1 = [1u8, 1, 1, 1, 1, 1, 1, 2, 2, 2];
    a.begin(&p1, pes_time(1000));
    assert_eq!(a.remaining().unwrap().len(), 10);
    let f0 = a.frame(7, 1024, 48_000).unwrap();
    assert_eq!(f0.payload, vec![1; 7]);
    assert_eq!((f0.time.pts, f0.time.dts, f0.time.duration), (Some(1000), Some(1000), Some(1920)));
    assert_eq!((f0.sequence, f0.track_id), (0, 2));
    assert!(f0.flags.is_keyframe);
    assert_eq!(a.remaining().unwrap(), &[2, 2, 2]);
    // The header says 7 bytes, only 3 are there: they wait for the next payload.
    assert!(a.frame(7, 1024, 48_000).is_none());
    assert!(a.remaining().is_none());
    assert_eq!(a.end(), Ok(()));
    // The carried frame keeps the time stepped from the previous frame.
    let p2 = [2u8, 2, 2, 2, 3, 3];
    a.begin(&p2, pes_time(5000));
    assert_eq!(a.remaining().unwrap(), &[2, 2, 2, 2, 2, 2, 2, 3, 3]);
    let f1 = a.frame(7, 1024, 48_000).unwrap();
    assert_eq!(f1.payload, vec![2; 7]);
    assert_eq!((f1.time.pts, f1.sequence), (Some(2920), 1));
    // Past the carried bytes, frames take the payload's time.
    let f2 = a.frame(2, 1024, 48_000).unwrap();
    assert_eq!((f2.payload.clone(), f2.time.pts, f2.sequence), (vec![3, 3], Some(5000), 2));
    assert!(a.remaining().is_none());
    assert_eq!(a.end(), Ok(()));
}

#[test]
fn audio_frames_bound_what_they_carry() {
    let mut a = AudioFrames::new(2);
    a.begin(&[9, 9, 9], pes_time(0));
    a.too_short();
    assert_eq!(a.end(), Err(MpegPsError::BufferExceeded { max: 2 }));
    // Nothing was carried.
    a.begin(&[4], pes_time(10));
    assert_eq!(a.remaining().unwrap(), &[4]);
}

#[test]
fn audio_frames_drop_what_is_no_adts() {
    let mut a = AudioFrames::new(1024);
    a.begin(&[0xaa, 0xbb, 0xcc], pes_time(0));
    a.not_adts();
    assert!(a.remaining().is_none());
    assert_eq!(a.end(), Ok(()));
    a.begin(&[1], pes_time(90));
    assert_eq!(a.remaining().unwrap(), &[1]);
    a.reset();
    assert!(a.remaining().is_none());
}
