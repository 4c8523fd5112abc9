use cheetah_containers::isobmff::muxer::write_descriptor;
use cheetah_containers::isobmff::sample_entry::read_descriptor_tag_length;
use cheetah_containers::isobmff::boxes::{
    fourcc_from_u32, iter_boxes, read_fullbox_header, u32_from_fourcc, write_box, write_box64,
    write_fullbox_box, BoxHeader, Mp4Cursor,
};
use cheetah_containers::isobmff::error::Mp4Error;
use cheetah_containers::isobmff::types;

#[test]
fn parse_small_box_header() {
    let buf = [0x00, 0x00, 0x00, 0x08, b'f', b't', b'y', b'p'];
    let header = BoxHeader::parse(&buf, 0).unwrap();
    assert_eq!(header.size, 8);
    assert_eq!(header.box_type, types::FTYP);
    assert_eq!(header.header_size, 8);
}

#[test]
fn parse_extended_size_box() {
    let mut buf = [0u8; 16];
    buf[0..4].copy_from_slice(&[0x00, 0x00, 0x00, 0x01]);
    buf[4..8].copy_from_slice(b"mdat");
    buf[8..16].copy_from_slice(&16u64.to_be_bytes());
    let header = BoxHeader::parse(&buf, 0).unwrap();
    assert_eq!(header.size, 16);
    assert_eq!(header.box_type, types::MDAT);
    assert_eq!(header.header_size, 16);
}

#[test]
fn iter_boxes_with_nested_children() {
    let mut buf = Vec::new();
    buf.extend_from_slice(&[0x00, 0x00, 0x00, 0x10]);
    buf.extend_from_slice(b"moov");
    buf.extend_from_slice(&[0x00, 0x00, 0x00, 0x08]);
    buf.extend_from_slice(b"free");
    let mut it = iter_boxes(&buf[8..], 8, 4).unwrap();
    let mut items = Vec::new();
    while let Some(item) = it.next() {
        items.push(item);
    }
    assert_eq!(items.len(), 1);
    let (h, body) = items.into_iter().next().unwrap().unwrap();
    assert_eq!(h.box_type, types::FREE);
    assert!(body.is_empty());
}

#[test]
fn box_writers_round_trip_through_parse() {
    let b = write_box(types::FREE, &[1, 2, 3]);
    let h = BoxHeader::parse(&b, 100).unwrap();
    assert_eq!((h.size, h.box_type, h.header_size, h.start_offset), (11, types::FREE, 8, 100));
    assert_eq!(h.body_offset(), 108);
    assert_eq!(h.body_len(), 3);
    let b64 = write_box64(types::MDAT, &[9]);
    let h64 = BoxHeader::parse(&b64, 0).unwrap();
    assert_eq!((h64.size, h64.header_size), (17, 16));
    let fb = write_fullbox_box(types::MFHD, 1, 0x000102, &[7]);
    let (version, flags, body) = read_fullbox_header(&fb[8..]).unwrap();
    assert_eq!((version, flags, body), (1, 0x000102, &[7u8][..]));
    assert_eq!(u32_from_fourcc(&fourcc_from_u32(types::MOOV)), types::MOOV);
}

#[test]
fn cursor_reads_and_limits() {
    let data = [0x00, 0x01, 0x02, 0x03, 0xff, 0xff, 0xff, 0xfe];
    let mut c = Mp4Cursor::new(&data);
    assert_eq!(c.read_u16().unwrap(), 1);
    assert_eq!(c.read_u16().unwrap(), 0x0203);
    assert_eq!(c.read_i32().unwrap(), -2);
    assert!(c.is_empty());
    assert!(matches!(c.read_u8(), Err(Mp4Error::NeedMoreData)));
    assert!(BoxHeader::parse(&[0, 0, 0, 4, b'f', b'r', b'e', b'e'], 0).is_err());
}

use cheetah_containers::isobmff::fragment::{emit_packets, FragmentSample, TrackFragment};
use cheetah_containers::isobmff::moov::{TrackData, TrexDefaults};
use cheetah_containers::media::TrackKind;

fn make_video_track_data() -> TrackData {
    TrackData {
        track_id: 1,
        kind: TrackKind::Video,
        timescale: 90_000,
        track_type: types::AVC1,
        trex: TrexDefaults {
            sample_description_index: 1,
            default_sample_duration: 0,
            default_sample_size: 0,
            default_sample_flags: 0,
        },
    }
}

fn fragment(samples: Vec<FragmentSample>) -> TrackFragment {
    TrackFragment {
        track_id: 1,
        base_decode_time: 0,
        default_sample_duration: 3000,
        default_sample_size: 0,
        default_sample_flags: 0,
        first_sample_flags: None,
        samples,
        data_offset_base: 0,
        moof_offset: 0,
    }
}

#[test]
fn emit_packets_rejects_sample_offset_before_mdat() {
    let track = make_video_track_data();
    let tf = fragment(vec![FragmentSample {
        duration: 3000,
        size: 2,
        flags: 0,
        composition_offset: 0,
        data_offset: 5,
    }]);
    let mdat = vec![0xab, 0xcd];
    let mut seq = 0;
    let res = emit_packets(&tf, &mdat, 10, &track, &mut seq, 0);
    assert!(res.is_err());
}

#[test]
fn emit_packets_rejects_sample_size_overflow() {
    let track = make_video_track_data();
    let tf = fragment(vec![FragmentSample {
        duration: 3000,
        size: u64::MAX,
        flags: 0,
        composition_offset: 0,
        data_offset: 10,
    }]);
    let mdat = vec![0xab, 0xcd];
    let mut seq = 0;
    let res = emit_packets(&tf, &mdat, 10, &track, &mut seq, 0);
    assert!(res.is_err());
}

#[test]
fn emit_packets_cuts_samples_and_times_them() {
    let track = make_video_track_data();
    let tf = fragment(vec![
        FragmentSample { duration: 3000, size: 2, flags: 0, composition_offset: 0, data_offset: 100 },
        FragmentSample {
            duration: 3000,
            size: 1,
            flags: 0x0001_0000,
            composition_offset: -1000,
            data_offset: 102,
        },
    ]);
    let mdat = vec![1, 2, 3];
    let mut seq = 7;
    let packets = emit_packets(&tf, &mdat, 100, &track, &mut seq, 4).unwrap();
    assert_eq!(seq, 9);
    assert_eq!(packets.len(), 2);
    assert_eq!(packets[0].payload, vec![1, 2]);
    assert_eq!(packets[1].payload, vec![3]);
    assert_eq!((packets[0].sequence, packets[1].sequence), (7, 8));
    assert!(packets[0].flags.is_keyframe && !packets[1].flags.is_keyframe);
    assert_eq!(packets[1].time.dts, Some(3000));
    assert_eq!(packets[1].time.pts, Some(2000));
    assert_eq!(packets[1].stream_epoch, 4);
    assert_eq!(packets[0].time.timebase.den, 90_000);
}

#[test]
fn descriptor_round_trips_through_write_and_read() {
    for n in [0usize, 5, 127, 128, 300, 20_000] {
        let body: Vec<u8> = (0..n).map(|i| (i % 251) as u8).collect();
        let mut bytes = write_descriptor(0x04, &body);
        bytes.extend_from_slice(&[0xde, 0xad]);
        let (tag, got, rest) = read_descriptor_tag_length(&bytes).unwrap();
        assert_eq!(tag, 0x04);
        assert_eq!(got, body.as_slice());
        assert_eq!(rest, &[0xde, 0xad]);
    }
}

use cheetah_containers::isobmff::fmp4::{FragmentedMp4Muxer, TrackConfig};
use cheetah_containers::media::{
    CodecConfig, CodecId, MediaPacket, MediaTime, PacketFlags, TimeBase,
};

fn make_audio_config() -> TrackConfig {
    // AAC-LC, 44.1 kHz, mono.
    TrackConfig {
        track_id: 1,
        kind: TrackKind::Audio,
        codec: CodecId::Aac,
        codec_config: CodecConfig::AacAudioSpecificConfig(vec![0x12, 0x08]),
        timescale: 44100,
        sample_entry_type: types::MP4A,
        width: 0,
        height: 0,
        sample_rate: 44100,
        channel_count: 1,
        default_sample_duration: 1024,
    }
}

fn make_packet(track_id: u32, sequence: u64, dts: i64, keyframe: bool, payload: Vec<u8>) -> MediaPacket {
    MediaPacket {
        payload,
        track_id,
        stream_epoch: 0,
        sequence,
        time: MediaTime::from_ticks(Some(dts), Some(dts), Some(1024), TimeBase { num: 1, den: 44100 }),
        flags: PacketFlags { is_keyframe: keyframe, is_corrupt: false, is_discontinuity: false },
    }
}

fn make_audio_packet(track_id: u32, sequence: u64, dts: i64, payload: Vec<u8>) -> MediaPacket {
    make_packet(track_id, sequence, dts, true, payload)
}

/// The top-level boxes of `b`: type, offset and size of each.
fn top_level_boxes(b: &[u8]) -> Vec<(u32, usize, usize)> {
    let mut out = Vec::new();
    let mut off = 0usize;
    while off < b.len() {
        let h = BoxHeader::parse(&b[off..], off as u64).unwrap();
        out.push((h.box_type, off, h.size as usize));
        off += h.size as usize;
    }
    out
}

#[test]
fn config_change_emits_new_init_segment() {
    let mut muxer = FragmentedMp4Muxer::new();
    muxer.configure(make_audio_config());
    muxer
        .push_packet(make_audio_packet(1, 0, 0, vec![0u8; 16]))
        .unwrap();

    let first = muxer.flush_segment().unwrap().unwrap();
    assert!(first.init_segment.is_some());

    // Same config: no new init segment.
    muxer
        .push_packet(make_audio_packet(1, 1, 1024, vec![1u8; 16]))
        .unwrap();
    let second = muxer.flush_segment().unwrap().unwrap();
    assert!(second.init_segment.is_none());

    // Change timescale -> new init segment.
    let mut new_cfg = make_audio_config();
    new_cfg.timescale = 48000;
    muxer.configure(new_cfg);
    muxer
        .push_packet(make_audio_packet(1, 2, 1024, vec![2u8; 16]))
        .unwrap();
    let third = muxer.flush_segment().unwrap().unwrap();
    assert!(third.init_segment.is_some());
}

#[test]
fn flush_with_nothing_buffered_returns_none() {
    let mut muxer = FragmentedMp4Muxer::default();
    muxer.configure(make_audio_config());
    assert!(muxer.flush_segment().unwrap().is_none());
}

#[test]
fn flush_without_tracks_reports_missing_configuration() {
    let mut muxer = FragmentedMp4Muxer::new();
    muxer.push_packet(make_audio_packet(1, 0, 0, vec![7u8; 4])).unwrap();
    match muxer.flush_segment() {
        Err(Mp4Error::InvalidInput { code, .. }) => assert_eq!(code, 3501),
        other => panic!("unexpected {:?}", other),
    }
    // The packets were taken by the failed flush.
    assert!(muxer.flush_segment().unwrap().is_none());
}

#[test]
fn segments_are_numbered_and_laid_out_as_ftyp_moov_moof_mdat() {
    let mut muxer = FragmentedMp4Muxer::new();
    muxer.configure(make_audio_config());
    muxer.push_packet(make_audio_packet(1, 0, 0, vec![0xAA; 5])).unwrap();
    muxer.push_packet(make_audio_packet(1, 1, 1024, vec![0xBB; 3])).unwrap();
    let out = muxer.flush_segment().unwrap().unwrap();
    assert_eq!(out.sequence, 1);
    let init = out.init_segment.unwrap();
    let init_boxes = top_level_boxes(&init);
    assert_eq!(init_boxes.iter().map(|b| b.0).collect::<Vec<_>>(), vec![types::FTYP, types::MOOV]);
    let media = out.media_segment.unwrap();
    let boxes = top_level_boxes(&media);
    assert_eq!(boxes.iter().map(|b| b.0).collect::<Vec<_>>(), vec![types::MOOF, types::MDAT]);
    let (_, mdat_off, mdat_size) = boxes[1];
    assert_eq!(mdat_size, 8 + 8);
    let mut expected = vec![0xAA; 5];
    expected.extend_from_slice(&[0xBB; 3]);
    assert_eq!(&media[mdat_off + 8..mdat_off + mdat_size], &expected[..]);

    muxer.push_packet(make_audio_packet(1, 2, 2048, vec![1])).unwrap();
    let next = muxer.flush_segment().unwrap().unwrap();
    assert_eq!(next.sequence, 2);
}

#[test]
fn flush_cuts_video_after_last_keyframe() {
    let mut muxer = FragmentedMp4Muxer::new();
    let mut cfg = make_audio_config();
    cfg.track_id = 2;
    muxer.configure(cfg);
    muxer.push_packet(make_packet(2, 0, 0, true, vec![1, 1])).unwrap();
    muxer.push_packet(make_packet(2, 1, 10, false, vec![2, 2])).unwrap();
    muxer.push_packet(make_packet(2, 2, 20, true, vec![3, 3])).unwrap();
    muxer.push_packet(make_packet(2, 3, 30, false, vec![4, 4])).unwrap();
    let out = muxer.flush_segment().unwrap().unwrap();
    let media = out.media_segment.unwrap();
    let boxes = top_level_boxes(&media);
    let (_, mdat_off, mdat_size) = boxes[1];
    assert_eq!(&media[mdat_off + 8..mdat_off + mdat_size], &[1, 1, 2, 2, 3, 3][..]);
    // The trailing non-keyframe is flushed next time.
    let rest = muxer.flush_segment().unwrap().unwrap();
    let media = rest.media_segment.unwrap();
    let boxes = top_level_boxes(&media);
    let (_, mdat_off, mdat_size) = boxes[1];
    assert_eq!(&media[mdat_off + 8..mdat_off + mdat_size], &[4, 4][..]);
    assert!(rest.init_segment.is_none());
}

use cheetah_containers::isobmff::demuxer::{IsobmffDemuxer, Mp4Event};

fn sample(duration: u64, size: u64, data_offset: u64) -> FragmentSample {
    FragmentSample { duration, size, flags: 0, composition_offset: 0, data_offset }
}

fn fragment_at(track_id: u32, base_decode_time: u64, samples: Vec<FragmentSample>) -> TrackFragment {
    let mut tf = fragment(samples);
    tf.track_id = track_id;
    tf.base_decode_time = base_decode_time;
    tf
}

fn next_packet(d: &mut IsobmffDemuxer) -> MediaPacket {
    match d.pop_event() {
        Some(Mp4Event::Packet(p)) => p,
        other => panic!("expected a packet, got {:?}", other),
    }
}

#[test]
fn demuxer_announces_tracks_then_cuts_mdat_into_packets() {
    let mut d = IsobmffDemuxer::new();
    assert!(d.apply_moov(vec![make_video_track_data()]).is_ok());
    match d.pop_event() {
        Some(Mp4Event::Track(t)) => assert_eq!(t.track_id, 1),
        other => panic!("expected a track, got {:?}", other),
    }
    d.set_pending_fragments(vec![fragment_at(1, 0, vec![sample(3000, 2, 100), sample(3000, 1, 102)])]);
    assert!(d.emit_mdat_packets(&[0xab, 0xcd, 0xef], 100).is_ok());
    let p0 = next_packet(&mut d);
    let p1 = next_packet(&mut d);
    assert_eq!(p0.payload, vec![0xab, 0xcd]);
    assert_eq!(p1.payload, vec![0xef]);
    assert_eq!((p0.sequence, p1.sequence), (0, 1));
    assert_eq!((p0.time.dts, p1.time.dts), (Some(0), Some(3000)));
    assert_eq!((p0.stream_epoch, p1.stream_epoch), (0, 0));
    assert!(!p0.flags.is_discontinuity && !p1.flags.is_discontinuity);
    assert!(d.pop_event().is_none());
    // The fragments were used up by that mdat.
    assert!(d.emit_mdat_packets(&[1, 2, 3], 100).is_ok());
    assert!(d.pop_event().is_none());
}

#[test]
fn demuxer_flags_fragment_ending_before_last_dts_as_discontinuity() {
    let mut d = IsobmffDemuxer::new();
    d.apply_moov(vec![make_video_track_data()]).unwrap();
    d.pop_event();
    d.set_pending_fragments(vec![fragment_at(1, 90_000, vec![sample(3000, 1, 0), sample(3000, 1, 1)])]);
    d.emit_mdat_packets(&[1, 2], 0).unwrap();
    next_packet(&mut d);
    next_packet(&mut d);
    // The last decode time is now 93000; a fragment at 0 lasting 1000 ends before it.
    d.set_pending_fragments(vec![fragment_at(1, 0, vec![sample(1000, 1, 0), sample(1000, 1, 1)])]);
    d.emit_mdat_packets(&[7, 8], 0).unwrap();
    match d.pop_event() {
        Some(Mp4Event::Discontinuity { track_id }) => assert_eq!(track_id, 1),
        other => panic!("expected a discontinuity, got {:?}", other),
    }
    let p0 = next_packet(&mut d);
    let p1 = next_packet(&mut d);
    assert!(p0.flags.is_discontinuity);
    assert!(!p1.flags.is_discontinuity);
    assert_eq!((p0.stream_epoch, p1.stream_epoch), (1, 1));
    assert_eq!((p0.sequence, p1.sequence), (2, 3));
}

#[test]
fn demuxer_flags_large_backwards_jump_as_discontinuity() {
    let mut d = IsobmffDemuxer::new();
    d.apply_moov(vec![make_video_track_data()]).unwrap();
    d.pop_event();
    d.set_pending_fragments(vec![fragment_at(1, 20_000_000, vec![sample(3000, 1, 0)])]);
    d.emit_mdat_packets(&[1], 0).unwrap();
    next_packet(&mut d);
    // Ends after the last decode time, but starts more than 10_000_000 before it.
    d.set_pending_fragments(vec![fragment_at(1, 9_000_000, vec![sample(20_000_000, 1, 0)])]);
    d.emit_mdat_packets(&[2], 0).unwrap();
    assert!(matches!(d.pop_event(), Some(Mp4Event::Discontinuity { track_id: 1 })));
    assert!(next_packet(&mut d).flags.is_discontinuity);
}

#[test]
fn demuxer_keeps_epoch_for_small_backwards_overlap() {
    let mut d = IsobmffDemuxer::new();
    d.apply_moov(vec![make_video_track_data()]).unwrap();
    d.pop_event();
    d.set_pending_fragments(vec![fragment_at(1, 20_000_000, vec![sample(3000, 1, 0)])]);
    d.emit_mdat_packets(&[1], 0).unwrap();
    next_packet(&mut d);
    d.set_pending_fragments(vec![fragment_at(1, 19_999_000, vec![sample(3000, 1, 0)])]);
    d.emit_mdat_packets(&[2], 0).unwrap();
    let p = next_packet(&mut d);
    assert!(!p.flags.is_discontinuity);
    assert_eq!(p.stream_epoch, 0);
}

#[test]
fn demuxer_skips_fragments_of_unknown_tracks() {
    let mut d = IsobmffDemuxer::new();
    d.apply_moov(vec![make_video_track_data()]).unwrap();
    d.pop_event();
    d.set_pending_fragments(vec![
        fragment_at(7, 0, vec![sample(3000, 1, 0)]),
        fragment_at(1, 0, vec![sample(3000, 1, 1)]),
    ]);
    d.emit_mdat_packets(&[5, 6], 0).unwrap();
    let p = next_packet(&mut d);
    assert_eq!((p.track_id, p.payload.clone()), (1, vec![6]));
    assert!(d.pop_event().is_none());
}

#[test]
fn demuxer_rejects_track_id_zero_in_moov() {
    let mut d = IsobmffDemuxer::new();
    let mut t = make_video_track_data();
    t.track_id = 0;
    match d.apply_moov(vec![make_video_track_data(), t]) {
        Err(Mp4Error::InvalidInput { code, .. }) => assert_eq!(code, 3401),
        other => panic!("expected an invalid input error, got {:?}", other),
    }
    assert!(d.pop_event().is_none());
}

#[test]
fn demuxer_second_moov_starts_a_new_epoch() {
    let mut d = IsobmffDemuxer::new();
    d.apply_moov(vec![make_video_track_data()]).unwrap();
    d.apply_moov(vec![make_video_track_data()]).unwrap();
    d.pop_event();
    d.pop_event();
    d.set_pending_fragments(vec![fragment_at(1, 0, vec![sample(3000, 1, 0)])]);
    d.emit_mdat_packets(&[9], 0).unwrap();
    assert_eq!(next_packet(&mut d).stream_epoch, 1);
}

#[test]
fn demuxer_stops_at_a_sample_outside_the_mdat() {
    let mut d = IsobmffDemuxer::new();
    d.apply_moov(vec![make_video_track_data()]).unwrap();
    d.pop_event();
    d.set_pending_fragments(vec![fragment_at(1, 0, vec![sample(3000, 4, 0)])]);
    assert!(d.emit_mdat_packets(&[1, 2], 0).is_err());
    assert!(d.pop_event().is_none());
}

use cheetah_containers::isobmff::recorder::{find_nested_box_offset, Mp4Muxer};

fn be32_at(b: &[u8], at: usize) -> u32 {
    u32::from_be_bytes([b[at], b[at + 1], b[at + 2], b[at + 3]])
}

#[test]
fn progressive_muxer_refuses_without_track_or_samples() {
    let m = Mp4Muxer::new();
    assert!(matches!(m.finish(), Err(Mp4Error::Unsupported { code: 3602, .. })));
    let mut m = Mp4Muxer::default();
    assert!(matches!(
        m.push_packet(make_audio_packet(1, 0, 0, vec![1])),
        Err(Mp4Error::Unsupported { code: 3600, .. })
    ));
    m.configure(make_audio_config());
    assert!(matches!(m.finish(), Err(Mp4Error::InvalidInput { code: 3603, .. })));
    assert!(matches!(
        m.push_packet(make_audio_packet(2, 0, 0, vec![1])),
        Err(Mp4Error::InvalidInput { code: 3601, .. })
    ));
    assert!(matches!(m.finish(), Err(Mp4Error::InvalidInput { code: 3603, .. })));
}

#[test]
fn progressive_muxer_writes_ftyp_moov_mdat_with_patched_chunk_offset() {
    let mut m = Mp4Muxer::new();
    m.configure(make_audio_config());
    m.push_packet(make_audio_packet(1, 0, 0, vec![1, 2, 3])).unwrap();
    m.push_packet(make_audio_packet(1, 1, 1024, vec![4, 5])).unwrap();
    let file = m.finish().unwrap();
    let boxes = top_level_boxes(&file);
    let kinds: Vec<u32> = boxes.iter().map(|b| b.0).collect();
    assert_eq!(kinds, vec![types::FTYP, types::MOOV, types::MDAT]);
    assert_eq!(boxes[0].2, 24);
    let (_, moov_at, moov_size) = boxes[1];
    let (_, mdat_at, mdat_size) = boxes[2];
    assert_eq!(mdat_size, 8 + 5);
    assert_eq!(&file[mdat_at + 8..], &[1, 2, 3, 4, 5]);
    // The single chunk offset points at the first payload byte.
    let moov_body = &file[moov_at + 8..moov_at + moov_size];
    let path = [types::TRAK, types::MDIA, types::MINF, types::STBL, types::STCO];
    let stco_body = find_nested_box_offset(moov_body, (moov_at + 8) as u64, &path).unwrap() as usize;
    assert_eq!(be32_at(&file, stco_body + 4), 1);
    assert_eq!(be32_at(&file, stco_body + 8) as usize, mdat_at + 8);
    // Equal durations make one stts run; all samples are sync samples, none reordered.
    let stbl = find_nested_box_offset(
        moov_body,
        (moov_at + 8) as u64,
        &[types::TRAK, types::MDIA, types::MINF, types::STBL],
    )
    .unwrap() as usize;
    let stts = find_nested_box_offset(moov_body, (moov_at + 8) as u64, &[
        types::TRAK,
        types::MDIA,
        types::MINF,
        types::STBL,
        types::STTS,
    ])
    .unwrap() as usize;
    assert!(stts > stbl);
    assert_eq!(be32_at(&file, stts + 4), 1);
    assert_eq!((be32_at(&file, stts + 8), be32_at(&file, stts + 12)), (2, 1024));
    for missing in [types::STSS, types::CTTS] {
        let p = [types::TRAK, types::MDIA, types::MINF, types::STBL, missing];
        assert!(find_nested_box_offset(moov_body, 0, &p).is_none());
    }
    let stsz = find_nested_box_offset(moov_body, (moov_at + 8) as u64, &[
        types::TRAK,
        types::MDIA,
        types::MINF,
        types::STBL,
        types::STSZ,
    ])
    .unwrap() as usize;
    assert_eq!(
        (be32_at(&file, stsz + 8), be32_at(&file, stsz + 12), be32_at(&file, stsz + 16)),
        (2, 3, 2)
    );
}

#[test]
fn progressive_muxer_lists_sync_samples_and_composition_offsets() {
    let mut m = Mp4Muxer::new();
    m.configure(make_audio_config());
    let mut p0 = make_packet(1, 0, 0, true, vec![9]);
    p0.time.pts = Some(2048);
    m.push_packet(p0).unwrap();
    m.push_packet(make_packet(1, 1, 1024, false, vec![8])).unwrap();
    m.push_packet(make_packet(1, 2, 2048, true, vec![7])).unwrap();
    let file = m.finish().unwrap();
    let boxes = top_level_boxes(&file);
    let (_, moov_at, moov_size) = boxes[1];
    let moov_body = &file[moov_at + 8..moov_at + moov_size];
    let base = (moov_at + 8) as u64;
    let stss = find_nested_box_offset(moov_body, base, &[
        types::TRAK,
        types::MDIA,
        types::MINF,
        types::STBL,
        types::STSS,
    ])
    .unwrap() as usize;
    assert_eq!(be32_at(&file, stss + 4), 2);
    assert_eq!((be32_at(&file, stss + 8), be32_at(&file, stss + 12)), (1, 3));
    let ctts = find_nested_box_offset(moov_body, base, &[
        types::TRAK,
        types::MDIA,
        types::MINF,
        types::STBL,
        types::CTTS,
    ])
    .unwrap() as usize;
    // Offsets 2048, 0, 0 make two runs.
    assert_eq!(be32_at(&file, ctts + 4), 2);
    assert_eq!((be32_at(&file, ctts + 8), be32_at(&file, ctts + 12)), (1, 2048));
    assert_eq!((be32_at(&file, ctts + 16), be32_at(&file, ctts + 20)), (2, 0));
}
