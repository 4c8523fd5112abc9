use cheetah_containers::media::Timestamp;
use cheetah_containers::mpegts::clock::{ms_to_pcr, pcr_to_ms, PcrClock};
use cheetah_containers::mpegts::error::TsError;
use cheetah_containers::mpegts::packet::TsPacket;
use cheetah_containers::mpegts::pes::{media_time_from_pes, PesAssembler};
use cheetah_containers::mpegts::section::{crc32_mpeg, parse_pat, parse_pmt, SectionAssembler};

fn ts_packet(pid: u16, payload_unit_start: bool, payload: &[u8], cc: u8) -> Vec<u8> {
    let mut pkt = vec![0xff; 188];
    pkt[0] = 0x47;
    let pid_hi = (((pid >> 8) & 0x1f) as u8) | if payload_unit_start { 0x40 } else { 0 };
    pkt[1] = pid_hi;
    pkt[2] = (pid & 0xff) as u8;
    pkt[3] = (1 << 4) | (cc & 0x0f);
    let len = payload.len().min(184);
    pkt[4..4 + len].copy_from_slice(&payload[..len]);
    pkt
}

fn pat_section(programs: &[(u16, u16)]) -> Vec<u8> {
    let n = programs.len();
    let section_length = 9 + 4 * n;
    let mut s = vec![0u8; section_length + 3];
    s[0] = 0x00;
    s[1] = 0xb0 | ((section_length >> 8) & 0x0f) as u8;
    s[2] = (section_length & 0xff) as u8;
    s[3..5].copy_from_slice(&[0x00, 0x01]);
    s[5] = 0xc1;
    s[6] = 0x00;
    s[7] = 0x00;
    for (i, (pn, pmt_pid)) in programs.iter().enumerate() {
        let off = 8 + i * 4;
        s[off..off + 2].copy_from_slice(&pn.to_be_bytes());
        s[off + 2..off + 4].copy_from_slice(&(0xe000u16 | pmt_pid).to_be_bytes());
    }
    s
}

fn pmt_section(program_number: u16, pcr_pid: u16, streams: &[(u8, u16)]) -> Vec<u8> {
    let stream_bytes = 5 * streams.len();
    let section_length = 13 + stream_bytes;
    let mut s = vec![0u8; section_length + 3];
    s[0] = 0x02;
    s[1] = 0xb0 | ((section_length >> 8) & 0x0f) as u8;
    s[2] = (section_length & 0xff) as u8;
    s[3..5].copy_from_slice(&program_number.to_be_bytes());
    s[5] = 0xc1;
    s[8..10].copy_from_slice(&(0xe000u16 | pcr_pid).to_be_bytes());
    s[10..12].copy_from_slice(&0xf000u16.to_be_bytes());
    let mut off = 12;
    for (st, pid) in streams {
        s[off] = *st;
        s[off + 1..off + 3].copy_from_slice(&(0xe000u16 | pid).to_be_bytes());
        s[off + 3..off + 5].copy_from_slice(&0xf000u16.to_be_bytes());
        off += 5;
    }
    s
}

fn timestamp_bytes(ts: u64, nibble: u8) -> [u8; 5] {
    let b0 = ((nibble & 0x0f) << 4) | ((((ts >> 30) & 0x07) as u8) << 1) | 1;
    let b1 = ((ts >> 22) & 0xff) as u8;
    let b2 = ((((ts >> 15) & 0x7f) as u8) << 1) | 1;
    let b3 = ((ts >> 7) & 0xff) as u8;
    let b4 = (((ts & 0x7f) as u8) << 1) | 1;
    [b0, b1, b2, b3, b4]
}

fn pes_packet(stream_id: u8, payload: &[u8], pts: Option<u64>, dts: Option<u64>) -> Vec<u8> {
    let mut out = Vec::new();
    out.extend_from_slice(&[0x00, 0x00, 0x01, stream_id]);
    let mut flags2 = 0u8;
    let mut optional = Vec::new();
    if let Some(p) = pts {
        let nibble = if dts.is_some() { 0x03 } else { 0x02 };
        optional.extend_from_slice(&timestamp_bytes(p, nibble));
    }
    if let Some(d) = dts {
        optional.extend_from_slice(&timestamp_bytes(d, 0x01));
    }
    if pts.is_some() && dts.is_some() {
        flags2 = 0xc0;
    } else if pts.is_some() {
        flags2 = 0x80;
    }
    let header_data_length = optional.len() as u16;
    let packet_length = (3 + header_data_length as usize + payload.len()) as u16;
    out.extend_from_slice(&packet_length.to_be_bytes());
    out.push(0x80);
    out.push(flags2);
    out.push(header_data_length as u8);
    out.extend_from_slice(&optional);
    out.extend_from_slice(payload);
    out
}

#[test]
fn parse_packet_header() {
    let pkt = ts_packet(0x100, true, &[], 0);
    let p = TsPacket::parse(&pkt).unwrap();
    assert_eq!(p.pid, 0x100);
    assert!(p.payload_unit_start);
    assert_eq!(p.continuity_counter, 0);
    assert!(!p.transport_error);
}

#[test]
fn parse_lost_sync_byte_fails() {
    let pkt = vec![0xff; 188];
    assert_eq!(TsPacket::parse(&pkt), Err(TsError::LostSync));
}

#[test]
fn parse_packet_adaptation_only_has_no_payload() {
    let mut pkt = [0xff; 188];
    pkt[0] = 0x47;
    pkt[1] = 0x00;
    pkt[2] = 0x00;
    pkt[3] = 0x20;
    pkt[4] = 0xb7;
    pkt[5] = 0x00;
    let p = TsPacket::parse(&pkt).unwrap();
    assert_eq!(p.adaptation_field_control, 2);
    assert!(p.payload(&pkt).is_empty());
}

#[test]
fn pes_assembler_rejects_short_packet_length() {
    let pes = vec![0x00, 0x00, 0x01, 0xe0, 0x00, 0x02, 0x80, 0x80, 0x00];
    let assembler = &mut PesAssembler::new();
    let result = assembler.feed(&pes, true);
    assert!(result.is_err());
}

#[test]
fn section_assembler_completes_pat() {
    let section = pat_section(&[(1, 0x100)]);
    let mut assembler = SectionAssembler::new();
    let mut payload = Vec::new();
    payload.push(0x00);
    payload.extend_from_slice(&section);
    assert_eq!(assembler.feed(&payload, true).unwrap().len(), 1);
}

#[test]
fn section_assembler_completes_across_packets() {
    let section = pat_section(&[(1, 0x100)]);
    let mut payload = Vec::new();
    payload.push(0x00);
    payload.extend_from_slice(&section);
    let split = payload.len() / 2;
    let mut assembler = SectionAssembler::new();
    assert!(assembler.feed(&payload[..split], true).unwrap().is_empty());
    assert_eq!(assembler.feed(&payload[split..], false).unwrap().len(), 1);
}

#[test]
fn section_assembler_completes_tail_with_new_pusi() {
    let section1 = pat_section(&[(1, 0x100)]);
    let section2 = pat_section(&[(2, 0x200)]);
    let split = section1.len() / 2;
    let mut payload1 = Vec::new();
    payload1.push(0x00);
    payload1.extend_from_slice(&section1[..split]);
    let tail = &section1[split..];
    let mut payload2 = Vec::new();
    payload2.push(tail.len() as u8);
    payload2.extend_from_slice(tail);
    payload2.extend_from_slice(&section2);

    let mut assembler = SectionAssembler::new();
    assert!(assembler.feed(&payload1, true).unwrap().is_empty());
    let completed = assembler.feed(&payload2, true).unwrap();
    assert_eq!(completed.len(), 2);
    assert_eq!(parse_pat(&completed[0]).unwrap(), parse_pat(&section1).unwrap());
    assert_eq!(parse_pat(&completed[1]).unwrap(), parse_pat(&section2).unwrap());
}

#[test]
fn pes_assembler_parses_pts_dts() {
    let payload = pes_packet(0xe0, &[0x01, 0x02, 0x03], Some(90000), Some(45000));
    let mut assembler = PesAssembler::new();
    let out = assembler.feed(&payload, true).unwrap().pop().unwrap();
    assert_eq!(out.header.stream_id, 0xe0);
    assert_eq!(out.header.pts, Some(Timestamp::new(90000)));
    assert_eq!(out.header.dts, Some(Timestamp::new(45000)));
    assert_eq!(out.payload, [0x01, 0x02, 0x03]);
}

#[test]
fn pes_assembler_unknown_length_finalizes_on_new_pusi() {
    let mut p = Vec::new();
    p.extend_from_slice(&[0x00, 0x00, 0x01, 0xe0]);
    p.extend_from_slice(&[0x00, 0x00]);
    p.extend_from_slice(&[0x80, 0x80, 0x05]);
    p.extend_from_slice(&timestamp_bytes(90000, 0x02));
    p.extend_from_slice(&[0x01, 0x02]);

    let mut assembler = PesAssembler::new();
    assert!(assembler.feed(&p, true).unwrap().is_empty());

    let p2 = pes_packet(0xe0, &[0x03, 0x04], Some(90000 + 1800), None);
    let outputs = assembler.feed(&p2, true).unwrap();
    assert_eq!(outputs.len(), 2);
    assert_eq!(outputs[0].payload, [0x01, 0x02]);
    assert_eq!(outputs[1].payload, [0x03, 0x04]);
}

#[test]
fn parse_pcr_round_trip() {
    let mut pkt = [0xff; 188];
    pkt[0] = 0x47;
    pkt[1] = 0x00;
    pkt[2] = 0x00;
    pkt[3] = 0x20;
    pkt[4] = 0x07;
    pkt[5] = 0x10;
    let pcr = 3_703_567u64;
    let base = pcr / 300;
    let ext = pcr % 300;
    pkt[6] = ((base >> 25) & 0xff) as u8;
    pkt[7] = ((base >> 17) & 0xff) as u8;
    pkt[8] = ((base >> 9) & 0xff) as u8;
    pkt[9] = ((base >> 1) & 0xff) as u8;
    pkt[10] = (((base & 0x01) << 7) | 0x7e | ((ext >> 8) & 0x01)) as u8;
    pkt[11] = (ext & 0xff) as u8;
    let p = TsPacket::parse(&pkt).unwrap();
    assert!(p.has_pcr);
    assert_eq!(p.pcr, Some(pcr));
}

#[test]
fn pat_and_pmt_sections_parse() {
    let pat = pat_section(&[(0, 0x10), (1, 0x100), (2, 0x101)]);
    let entries = parse_pat(&pat).unwrap();
    assert_eq!(entries.len(), 2);
    assert_eq!((entries[0].program_number, entries[0].pmt_pid), (1, 0x100));
    assert_eq!((entries[1].program_number, entries[1].pmt_pid), (2, 0x101));
    assert_eq!(parse_pat(&pat[..7]), Err(TsError::NeedMoreData));
    let pmt = pmt_section(1, 0x101, &[(0x1b, 0x101), (0x0f, 0x102)]);
    let (pcr_pid, streams) = parse_pmt(&pmt).unwrap();
    assert_eq!(pcr_pid, 0x101);
    assert_eq!(streams.len(), 2);
    assert_eq!((streams[1].stream_type, streams[1].elementary_pid), (0x0f, 0x102));
    let mut bad = pmt.clone();
    bad[0] = 0x03;
    assert!(matches!(parse_pmt(&bad), Err(TsError::InvalidInput { code: 2006, .. })));
}

#[test]
fn crc32_mpeg_known_value() {
    assert_eq!(crc32_mpeg(b"123456789"), 0x0376E6E7);
    assert_eq!(crc32_mpeg(&[]), 0xFFFF_FFFF);
}

#[test]
fn pcr_ms_conversions_round_trip() {
    assert_eq!(pcr_to_ms(27_000_000), 1000);
    assert_eq!(ms_to_pcr(1000), 27_000_000);
    assert_eq!(pcr_to_ms(ms_to_pcr(123_456)), 123_456);
    let mut clock = PcrClock::new();
    let s = clock.feed(27_000_000, Some(1000));
    assert_eq!(s.last_pcr, Some(27_000_000));
    assert_eq!(s.jitter_hz, None);
}

#[test]
fn section_assembler_pointer_beyond_payload_errors() {
    let mut assembler = SectionAssembler::new();
    assert!(matches!(
        assembler.feed(&[5, 0, 0], true),
        Err(TsError::InvalidInput { code: 2001, .. })
    ));
}

#[test]
fn pes_media_time_is_in_90khz_ticks() {
    let t = media_time_from_pes(Some(Timestamp::new(180_000)), None);
    assert_eq!((t.pts, t.dts, t.duration), (Some(180_000), None, None));
    assert_eq!((t.timebase.num, t.timebase.den), (1, 90_000));
    assert_eq!(t.pts_ms(), Some(2000));
}

use cheetah_containers::isobmff::types as mp4_types;
use cheetah_containers::media::{CodecConfig, CodecId, TimeBase, TrackInfo, TrackKind};
use cheetah_containers::mpegts::transmux::{track_info_to_config, TsTransmuxError};

#[test]
fn ts_track_config_for_h264_uses_90khz_clock() {
    let mut info = TrackInfo::new(256, TrackKind::Video, CodecId::H264, TimeBase { num: 1, den: 90_000 });
    info.codec_config = CodecConfig::AvcC(vec![1, 0x42, 0, 0x1e]);
    let c = track_info_to_config(&info).unwrap();
    assert_eq!(c.track_id, 256);
    assert_eq!(c.sample_entry_type, mp4_types::AVC1);
    assert_eq!((c.timescale, c.default_sample_duration), (90_000, 3000));
    assert_eq!((c.width, c.height), (640, 360));
}

#[test]
fn ts_track_config_rejects_mp3() {
    let info = TrackInfo::new(257, TrackKind::Audio, CodecId::Mp3, TimeBase { num: 1, den: 90_000 });
    assert!(matches!(track_info_to_config(&info), Err(TsTransmuxError::UnsupportedCodec)));
}

#[test]
fn pcr_clock_state_follows_its_feed_history() {
    let mut clock = PcrClock::new();
    let s0 = clock.state();
    assert_eq!((s0.pcr_hz, s0.last_pcr, s0.last_wall_ms, s0.live_edge_ms), (27_000_000, None, None, None));
    assert_eq!((s0.jitter_hz, s0.drift_hz_per_s), (None, None));
    let s1 = clock.feed(27_000_000, Some(1000));
    assert_eq!(clock.state(), s1);
    assert!(s1.jitter_hz.is_none() && s1.drift_hz_per_s.is_none());
    let s2 = clock.feed(54_000_000, None);
    // Without a wall clock the PCR itself, in milliseconds, stands in for it.
    assert_eq!((s2.last_pcr, s2.last_wall_ms, s2.live_edge_ms), (Some(54_000_000), Some(2000), Some(2000)));
    assert!(s2.jitter_hz.is_some() && s2.drift_hz_per_s.is_some());
    assert_eq!(clock.state(), s2);
}
