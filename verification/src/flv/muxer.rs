//! FLV muxer / writer: a header, codec configuration tags, and media tags
//! written from a reorder queue in decode time order.

use vstd::prelude::*;

use crate::bytes::{be24, be32, bytes24, bytes32, lemma_be24_bytes24};
use crate::flv::audio::{build_audio_raw_frame, header_byte_spec, AudioTagHeader};
use crate::flv::error::FlvError;
use crate::flv::header::{
    file_header_spec, tag_header_spec, tag_total_size, FlvHeader, FlvTagHeader, TagType,
};
use crate::flv::video::{avc_hevc_header_spec, build_video_frame, FrameType, VideoCodecId, VideoTagHeader};
use crate::isobmff::boxes::append;
use crate::media::{
    config_view_bytes, opt_ms, CodecId, MediaPacket, PacketView, TrackInfo, TrackKind, TrackView,
};

verus! {

/// What a muxer holds: its mode and queue limit, the bytes written, the
/// tracks registered, which configuration tags were written, the packets
/// waiting, whether the file header was written and the size of the last
/// tag.
pub struct FlvMuxModel {
    pub file_mode: bool,
    pub max_queue_depth: nat,
    pub output: Seq<u8>,
    pub audio: Option<TrackView>,
    pub video: Option<TrackView>,
    pub audio_config_emitted: bool,
    pub video_config_emitted: bool,
    pub queue: Seq<(PacketView, TrackView)>,
    pub header_written: bool,
    pub previous_tag_size: u32,
}

/// The flags byte of the file header: bit 2 for audio, bit 0 for video.
pub open spec fn flags_byte(audio: bool, video: bool) -> u8 {
    if audio {
        if video {
            5
        } else {
            4
        }
    } else if video {
        1
    } else {
        0
    }
}

/// The flags byte rewritten after a track was registered, once the header
/// is out.
pub open spec fn patch_flags(m: FlvMuxModel) -> FlvMuxModel {
    if m.header_written && m.output.len() > 4 {
        FlvMuxModel {
            output: m.output.update(4, flags_byte(m.audio is Some, m.video is Some)),
            ..m
        }
    } else {
        m
    }
}

/// Register `t` as the audio or video track unless one is registered.
pub open spec fn ensure_track_spec(m: FlvMuxModel, t: TrackView) -> FlvMuxModel {
    match t.kind {
        TrackKind::Audio => if m.audio is None {
            patch_flags(FlvMuxModel { audio: Some(t), ..m })
        } else {
            m
        },
        TrackKind::Video => if m.video is None {
            patch_flags(FlvMuxModel { video: Some(t), ..m })
        } else {
            m
        },
        TrackKind::Data => m,
    }
}

/// The FLV file header: signature, version 1, flags, header size 9, and in
/// file mode the first previous-tag size.
pub open spec fn header_bytes(file_mode: bool, flags: u8) -> Seq<u8> {
    seq![0x46u8, 0x4cu8, 0x56u8, 1u8, flags] + bytes32(9) + if file_mode {
        bytes32(0)
    } else {
        Seq::empty()
    }
}

/// Write the file header once.
pub open spec fn write_header_spec(m: FlvMuxModel) -> FlvMuxModel {
    if m.header_written {
        m
    } else {
        FlvMuxModel {
            output: m.output + header_bytes(
                m.file_mode,
                flags_byte(m.audio is Some, m.video is Some),
            ),
            header_written: true,
            ..m
        }
    }
}

/// A tag: type, data size, timestamp (low 24 bits, then the high byte),
/// stream id 0, the data, and in file mode the tag's total size.
pub open spec fn tag_bytes(file_mode: bool, tag_type: u8, timestamp: u32, data: Seq<u8>) -> Seq<
    u8,
> {
    seq![tag_type] + bytes24(data.len() as int) + bytes24(timestamp as int % 0x100_0000) + seq![
        (timestamp / 0x100_0000) as u8,
    ] + seq![0u8, 0u8, 0u8] + data + if file_mode {
        bytes32(data.len() + 11int)
    } else {
        Seq::empty()
    }
}

/// Append a tag and remember its total size.
pub open spec fn write_tag_spec(m: FlvMuxModel, tag_type: u8, timestamp: u32, data: Seq<u8>) -> FlvMuxModel {
    FlvMuxModel {
        output: m.output + tag_bytes(m.file_mode, tag_type, timestamp, data),
        previous_tag_size: (data.len() + 11) as u32,
        ..m
    }
}

/// The sample rate and channel count an audio tag header announces for a
/// track: its audio format's, else 44.1 kHz stereo.
pub open spec fn audio_params(t: TrackView) -> (u32, u8) {
    match t.audio_format {
        Some(f) => (f.sample_rate, f.channels as u8),
        None => (44100, 2),
    }
}

/// The AAC sequence header tag body of a track.
pub open spec fn aac_config_body(t: TrackView) -> Result<Seq<u8>, FlvError> {
    match config_view_bytes(t.codec_config) {
        None => Err(FlvError::MalformedTag),
        Some(b) => Ok(
            seq![header_byte_spec(CodecId::Aac, audio_params(t).0, audio_params(t).1), 0u8] + b,
        ),
    }
}

/// The video codec of an AVC or HEVC track.
pub open spec fn video_codec(c: CodecId) -> VideoCodecId {
    if c == CodecId::H264 {
        VideoCodecId::H264
    } else {
        VideoCodecId::H265
    }
}

/// The AVC / HEVC sequence header tag body of a track.
pub open spec fn video_config_body(t: TrackView) -> Result<Seq<u8>, FlvError> {
    match t.codec {
        CodecId::H264 | CodecId::H265 => match config_view_bytes(t.codec_config) {
            None => Err(FlvError::MalformedTag),
            Some(b) => Ok(avc_hevc_header_spec(FrameType::Keyframe, video_codec(t.codec), 0, 0) + b),
        },
        _ => Err(FlvError::UnsupportedCodec),
    }
}

/// Write the configuration tag of track `t` once per kind: AAC and AVC /
/// HEVC tracks have one, other codecs none.
pub open spec fn config_spec(m: FlvMuxModel, t: TrackView) -> (FlvMuxModel, Result<(), FlvError>) {
    match t.kind {
        TrackKind::Audio => if m.audio_config_emitted {
            (m, Ok(()))
        } else if t.codec == CodecId::Aac {
            match aac_config_body(t) {
                Err(e) => (m, Err(e)),
                Ok(b) => (FlvMuxModel { audio_config_emitted: true, ..write_tag_spec(m, 8, 0, b) }, Ok(())),
            }
        } else {
            (FlvMuxModel { audio_config_emitted: true, ..m }, Ok(()))
        },
        TrackKind::Video => if m.video_config_emitted {
            (m, Ok(()))
        } else if t.codec == CodecId::H264 || t.codec == CodecId::H265 {
            match video_config_body(t) {
                Err(e) => (m, Err(e)),
                Ok(b) => (FlvMuxModel { video_config_emitted: true, ..write_tag_spec(m, 9, 0, b) }, Ok(())),
            }
        } else {
            (FlvMuxModel { video_config_emitted: true, ..m }, Ok(()))
        },
        TrackKind::Data => (m, Ok(())),
    }
}

/// The decode time in milliseconds a packet is ordered by: its decode
/// time, else its presentation time.
pub open spec fn order_key(p: PacketView) -> Option<i64> {
    match opt_ms(p.time.dts, p.time.timebase) {
        Some(d) => Some(d),
        None => opt_ms(p.time.pts, p.time.timebase),
    }
}

/// `a` orders strictly before `b`; an unknown time comes first.
pub open spec fn key_lt(a: Option<i64>, b: Option<i64>) -> bool {
    match (a, b) {
        (None, Some(_)) => true,
        (Some(x), Some(y)) => x < y,
        _ => false,
    }
}

/// The decode and presentation times written for a packet: the order key
/// (0 when unknown), and the presentation time, else the decode time.
pub open spec fn write_times(p: PacketView) -> (i64, i64) {
    let dts = match order_key(p) {
        Some(d) => d,
        None => 0,
    };
    let pts = match opt_ms(p.time.pts, p.time.timebase) {
        Some(v) => v,
        None => dts,
    };
    (dts, pts)
}

/// The tag a packet of track `t` is written as: its type, timestamp and
/// data; none for a data track.
pub open spec fn packet_tag(p: PacketView, t: TrackView) -> Result<Option<(u8, u32, Seq<u8>)>, FlvError> {
    let (dts, pts) = write_times(p);
    match t.kind {
        TrackKind::Audio => match t.audio_format {
            None => Err(FlvError::UnsupportedCodec),
            Some(f) => {
                let ch = f.channels as u8;
                match t.codec {
                    CodecId::Aac => Ok(
                        Some(
                            (
                                8u8,
                                dts as u32,
                                seq![header_byte_spec(CodecId::Aac, f.sample_rate, ch), 1u8]
                                    + p.payload,
                            ),
                        ),
                    ),
                    CodecId::Mp3 => Ok(
                        Some(
                            (
                                8u8,
                                dts as u32,
                                seq![header_byte_spec(CodecId::Mp3, f.sample_rate, ch)] + p.payload,
                            ),
                        ),
                    ),
                    CodecId::G711A => Ok(
                        Some(
                            (8u8, dts as u32, seq![header_byte_spec(CodecId::G711A, 8000, ch)] + p.payload),
                        ),
                    ),
                    CodecId::G711U => Ok(
                        Some(
                            (8u8, dts as u32, seq![header_byte_spec(CodecId::G711U, 8000, ch)] + p.payload),
                        ),
                    ),
                    _ => Err(FlvError::UnsupportedCodec),
                }
            },
        },
        TrackKind::Video => {
            let cts = pts - dts;
            if cts < i32::MIN || cts > i32::MAX {
                Err(FlvError::InvalidTimestamp)
            } else if t.codec == CodecId::H264 || t.codec == CodecId::H265 {
                Ok(
                    Some(
                        (
                            9u8,
                            dts as u32,
                            avc_hevc_header_spec(
                                if p.flags.is_keyframe {
                                    FrameType::Keyframe
                                } else {
                                    FrameType::Interframe
                                },
                                video_codec(t.codec),
                                1,
                                cts as i32,
                            ) + p.payload,
                        ),
                    ),
                )
            } else {
                Err(FlvError::UnsupportedCodec)
            }
        },
        TrackKind::Data => Ok(None),
    }
}

/// Write a packet of track `t`.
pub open spec fn write_packet_spec(m: FlvMuxModel, p: PacketView, t: TrackView) -> (
    FlvMuxModel,
    Result<(), FlvError>,
) {
    match packet_tag(p, t) {
        Err(e) => (m, Err(e)),
        Ok(None) => (m, Ok(())),
        Ok(Some((ty, ts, data))) => (write_tag_spec(m, ty, ts, data), Ok(())),
    }
}

/// The index of the first queued packet with the least order key.
pub open spec fn oldest(q: Seq<(PacketView, TrackView)>) -> int
    decreases q.len(),
{
    if q.len() <= 1 {
        0
    } else {
        let i = oldest(q.drop_last());
        if key_lt(order_key(q.last().0), order_key(q[i].0)) {
            q.len() - 1
        } else {
            i
        }
    }
}

/// Take the oldest queued packet out and write it.
pub open spec fn flush_oldest_spec(m: FlvMuxModel) -> (FlvMuxModel, Result<(), FlvError>) {
    if m.queue.len() == 0 {
        (m, Err(FlvError::MalformedTag))
    } else {
        let i = oldest(m.queue);
        let (p, t) = m.queue[i];
        write_packet_spec(FlvMuxModel { queue: m.queue.remove(i), ..m }, p, t)
    }
}

/// Flush the oldest packet `n` times, stopping at the first error.
pub open spec fn flush_n(m: FlvMuxModel, n: nat) -> (FlvMuxModel, Result<(), FlvError>)
    decreases n,
{
    if n == 0 {
        (m, Ok(()))
    } else {
        let (m1, r) = flush_oldest_spec(m);
        match r {
            Err(e) => (m1, Err(e)),
            Ok(_) => flush_n(m1, (n - 1) as nat),
        }
    }
}

/// How many packets over the queue limit `m` holds.
pub open spec fn excess(m: FlvMuxModel) -> nat {
    if m.queue.len() > m.max_queue_depth {
        (m.queue.len() - m.max_queue_depth) as nat
    } else {
        0
    }
}

/// Queue packet `p` of track `t`: register the track, write the header and
/// the track's configuration tag if due, queue the packet, and write the
/// oldest packets while the queue is over its limit.
pub open spec fn push_spec(m: FlvMuxModel, p: PacketView, t: TrackView) -> (
    FlvMuxModel,
    Result<(), FlvError>,
) {
    let m1 = write_header_spec(ensure_track_spec(m, t));
    let (m2, r) = config_spec(m1, t);
    match r {
        Err(e) => (m2, Err(e)),
        Ok(_) => {
            let m3 = FlvMuxModel { queue: m2.queue.push((p, t)), ..m2 };
            flush_n(m3, excess(m3))
        },
    }
}

/// The configuration tag of a registered track, if any.
pub open spec fn config_opt(m: FlvMuxModel, t: Option<TrackView>) -> (FlvMuxModel, Result<(), FlvError>) {
    match t {
        Some(t) => config_spec(m, t),
        None => (m, Ok(())),
    }
}

/// The steps of finishing: the header and configuration tags if due, then
/// every queued packet in order.
pub open spec fn finish_steps(m: FlvMuxModel) -> (FlvMuxModel, Result<(), FlvError>) {
    let m1 = write_header_spec(m);
    let (m2, r2) = config_opt(m1, m1.audio);
    match r2 {
        Err(e) => (m2, Err(e)),
        Ok(_) => {
            let (m3, r3) = config_opt(m2, m2.video);
            match r3 {
                Err(e) => (m3, Err(e)),
                Ok(_) => flush_n(m3, m3.queue.len()),
            }
        },
    }
}

/// The finished stream: what [`finish_steps`] wrote, and in file mode the
/// last tag's size.
pub open spec fn finish_spec(m: FlvMuxModel) -> Result<Seq<u8>, FlvError> {
    match finish_steps(m) {
        (_, Err(e)) => Err(e),
        (m4, Ok(_)) => Ok(
            m4.output + if m4.file_mode && m4.previous_tag_size != 0 {
                bytes32(m4.previous_tag_size as int)
            } else {
                Seq::empty()
            },
        ),
    }
}

/// Two states with the same queue and tracks.
pub open spec fn same_holdings(a: FlvMuxModel, b: FlvMuxModel) -> bool {
    a.queue == b.queue && a.audio == b.audio && a.video == b.video
}

proof fn lemma_fits_same(a: FlvMuxModel, b: FlvMuxModel)
    requires
        model_fits(a),
        same_holdings(a, b),
    ensures
        model_fits(b),
{
    assert forall|i: int| 0 <= i < b.queue.len() implies entry_fits(#[trigger] b.queue[i]) by {
        assert(b.queue[i] == a.queue[i]);
    }
}

/// A track whose configuration tag fits an FLV tag.
pub open spec fn track_fits(t: TrackView) -> bool {
    match config_view_bytes(t.codec_config) {
        Some(b) => b.len() + 16 <= u32::MAX,
        None => true,
    }
}

/// A packet whose tag fits an FLV tag and whose composition offset can be
/// computed.
pub open spec fn packet_fits(p: PacketView) -> bool {
    &&& p.payload.len() + 16 <= u32::MAX
    &&& i64::MIN <= write_times(p).1 - write_times(p).0 <= i64::MAX
}

/// A queued packet and its track both fit.
pub open spec fn entry_fits(e: (PacketView, TrackView)) -> bool {
    packet_fits(e.0) && track_fits(e.1)
}

/// The queued packets and registered tracks all fit.
pub open spec fn model_fits(m: FlvMuxModel) -> bool {
    &&& forall|i: int| 0 <= i < m.queue.len() ==> entry_fits(#[trigger] m.queue[i])
    &&& (m.audio matches Some(a) ==> track_fits(a))
    &&& (m.video matches Some(v) ==> track_fits(v))
}

/// The file header the muxer writes reads back as version 1 with the audio
/// and video flags of the tracks registered and a header size of 9,
/// whatever follows it.
pub proof fn lemma_header_round_trip(file_mode: bool, audio: bool, video: bool, rest: Seq<u8>)
    ensures
        file_header_spec(header_bytes(file_mode, flags_byte(audio, video)) + rest) == Ok::<
            FlvHeader,
            FlvError,
        >(FlvHeader { version: 1, has_audio: audio, has_video: video, header_size: 9 }),
{
    let f = flags_byte(audio, video);
    let d = header_bytes(file_mode, f) + rest;
    assert(d[0] == 0x46 && d[1] == 0x4c && d[2] == 0x56 && d[3] == 1 && d[4] == f);
    assert(d[5] == 0 && d[6] == 0 && d[7] == 0 && d[8] == 9);
    assert(be32(d, 5) == 9);
    assert((f & 0x04) != 0 <==> audio) by (bit_vector)
        requires
            f == (if audio {
                if video {
                    5u8
                } else {
                    4u8
                }
            } else if video {
                1u8
            } else {
                0u8
            }),
    ;
    assert((f & 0x01) != 0 <==> video) by (bit_vector)
        requires
            f == (if audio {
                if video {
                    5u8
                } else {
                    4u8
                }
            } else if video {
                1u8
            } else {
                0u8
            }),
    ;
}

/// A tag the muxer writes reads back with its type, a clear filter bit, its
/// data size, its timestamp and stream id 0, whatever follows it.
pub proof fn lemma_tag_round_trip(
    file_mode: bool,
    tag_type: TagType,
    timestamp: u32,
    data: Seq<u8>,
    rest: Seq<u8>,
)
    requires
        data.len() < 0x100_0000,
    ensures
        tag_header_spec(
            tag_bytes(
                file_mode,
                match tag_type {
                    TagType::Audio => 8u8,
                    TagType::Video => 9u8,
                    TagType::Script => 18u8,
                },
                timestamp,
                data,
            ) + rest,
        ) == Ok::<FlvTagHeader, FlvError>(
            FlvTagHeader {
                tag_type,
                filter: false,
                data_size: data.len() as u32,
                timestamp_ms: timestamp,
                stream_id: 0,
            },
        ),
{
    let ty: u8 = match tag_type {
        TagType::Audio => 8u8,
        TagType::Video => 9u8,
        TagType::Script => 18u8,
    };
    let d = tag_bytes(file_mode, ty, timestamp, data) + rest;
    let n = bytes24(data.len() as int);
    let lo = timestamp as int % 0x100_0000;
    let t = bytes24(lo);
    lemma_be24_bytes24(data.len() as int);
    lemma_be24_bytes24(lo);
    assert(d[0] == ty);
    assert(d[1] == n[0] && d[2] == n[1] && d[3] == n[2]);
    assert(be24(d, 1) == be24(n, 0));
    assert(d[4] == t[0] && d[5] == t[1] && d[6] == t[2]);
    assert(be24(d, 4) == lo);
    assert(d[7] == (timestamp / 0x100_0000) as u8);
    assert(d[8] == 0 && d[9] == 0 && d[10] == 0);
    assert(d[7] as int * 0x100_0000 + lo == timestamp);
}

/// A packet waiting in the muxer's reorder queue, with its track.
pub type QueuedPacket = (MediaPacket, TrackInfo);

/// FLV muxer that writes an FLV byte stream.
pub struct FlvMuxer {
    /// True for file-mode output with PreviousTagSize fields; false for stream-mode.
    pub file_mode: bool,
    max_queue_depth: usize,
    output: Vec<u8>,
    audio: Option<TrackInfo>,
    video: Option<TrackInfo>,
    audio_config_emitted: bool,
    video_config_emitted: bool,
    queue: Vec<QueuedPacket>,
    header_written: bool,
    previous_tag_size: u32,
}

impl FlvMuxer {
    /// What the muxer holds.
    pub closed spec fn model(self) -> FlvMuxModel {
        FlvMuxModel {
            file_mode: self.file_mode,
            max_queue_depth: self.max_queue_depth as nat,
            output: self.output@,
            audio: match self.audio { Some(t) => Some(t@), None => None },
            video: match self.video { Some(t) => Some(t@), None => None },
            audio_config_emitted: self.audio_config_emitted,
            video_config_emitted: self.video_config_emitted,
            queue: self.queue@.map_values(|e: QueuedPacket| (e.0@, e.1@)),
            header_written: self.header_written,
            previous_tag_size: self.previous_tag_size,
        }
    }

    /// Create a muxer.
    pub fn new(file_mode: bool, max_queue_depth: usize) -> (m: Self)
        ensures
            m.model() == (FlvMuxModel {
                file_mode,
                max_queue_depth: max_queue_depth as nat,
                output: Seq::empty(),
                audio: None,
                video: None,
                audio_config_emitted: false,
                video_config_emitted: false,
                queue: Seq::empty(),
                header_written: false,
                previous_tag_size: 0,
            }),
            model_fits(m.model()),
    {
        let m = FlvMuxer {
            file_mode,
            max_queue_depth,
            output: Vec::new(),
            audio: None,
            video: None,
            audio_config_emitted: false,
            video_config_emitted: false,
            queue: Vec::new(),
            header_written: false,
            previous_tag_size: 0,
        };
        assert(m.model().queue =~= Seq::<(PacketView, TrackView)>::empty());
        assert(m.model().output =~= Seq::<u8>::empty());
        m
    }

    /// Return a reference to the bytes written so far.
    pub fn output(&self) -> (r: &[u8])
        ensures
            r@ == self.model().output,
    {
        self.output.as_slice()
    }

    /// Take the bytes written so far, leaving the muxer's output empty.
    pub fn take_output(&mut self) -> (r: Vec<u8>)
        ensures
            r@ == old(self).model().output,
            final(self).model() == (FlvMuxModel { output: Seq::empty(), ..old(self).model() }),
    {
        let mut out = Vec::new();
        core::mem::swap(&mut out, &mut self.output);
        out
    }

    /// Number of packets still waiting in the reorder queue.
    pub fn pending_packet_count(&self) -> (n: usize)
        ensures
            n == self.model().queue.len(),
    {
        self.queue.len()
    }

    /// Register a track. The header and config tags are emitted on the first
    /// packet or on `finish`, so all `add_track` calls can complete before the
    /// flags byte is written.
    pub fn add_track(&mut self, track: &TrackInfo) -> (r: Result<(), FlvError>)
        requires
            model_fits(old(self).model()),
            track_fits(track@),
        ensures
            r is Ok,
            final(self).model() == ensure_track_spec(old(self).model(), track@),
            model_fits(final(self).model()),
    {
        self.ensure_track(track);
        Ok(())
    }

    /// Queue a packet for output. The muxer sorts by DTS and flushes while
    /// the reorder queue exceeds `max_queue_depth`.
    pub fn push_packet(&mut self, packet: MediaPacket, track: &TrackInfo) -> (r: Result<(), FlvError>)
        requires
            model_fits(old(self).model()),
            track_fits(track@),
            packet_fits(packet@),
        ensures
            (final(self).model(), r) == push_spec(old(self).model(), packet@, track@),
            model_fits(final(self).model()),
    {
        self.ensure_track(track);
        let ghost m0 = self.model();
        if !self.header_written {
            self.write_header();
        }
        let ghost m1 = self.model();
        proof {
            lemma_fits_same(m0, m1);
        }
        match self.write_config_for_track(track) {
            Ok(()) => {},
            Err(e) => {
                proof {
                    lemma_fits_same(m1, self.model());
                }
                return Err(e);
            },
        }
        let ghost m2 = self.model();
        proof {
            lemma_fits_same(m1, m2);
        }
        self.queue.push((packet, track.copy()));
        assert(self.queue@.map_values(|e: QueuedPacket| (e.0@, e.1@)) =~= m2.queue.push((packet@, track@)));
        self.trim()
    }

    /// Flush the reorder queue and return all remaining bytes.
    pub fn finish(self) -> (r: Result<Vec<u8>, FlvError>)
        requires
            model_fits(self.model()),
        ensures
            match finish_spec(self.model()) {
                Ok(b) => r matches Ok(v) && v@ == b,
                Err(e) => r == Err::<Vec<u8>, FlvError>(e),
            },
    {
        let mut s = self;
        match s.finish_steps() {
            Ok(()) => {},
            Err(e) => {
                return Err(e);
            },
        }
        if s.file_mode && s.previous_tag_size != 0 {
            crate::isobmff::boxes::write_u32(&mut s.output, s.previous_tag_size);
        }
        Ok(s.output)
    }

    fn finish_steps(&mut self) -> (r: Result<(), FlvError>)
        requires
            model_fits(old(self).model()),
        ensures
            (final(self).model(), r) == finish_steps(old(self).model()),
    {
        if !self.header_written {
            self.write_header();
        }
        let ghost m1 = self.model();
        proof {
            lemma_fits_same(old(self).model(), m1);
        }
        let audio = match &self.audio {
            Some(t) => Some(t.copy()),
            None => None,
        };
        match audio {
            Some(track) => {
                match self.write_config_for_track(&track) {
                    Ok(()) => {},
                    Err(e) => {
                        return Err(e);
                    },
                }
            },
            None => {},
        }
        let ghost m2 = self.model();
        proof {
            lemma_fits_same(m1, m2);
        }
        let video = match &self.video {
            Some(t) => Some(t.copy()),
            None => None,
        };
        match video {
            Some(track) => {
                match self.write_config_for_track(&track) {
                    Ok(()) => {},
                    Err(e) => {
                        return Err(e);
                    },
                }
            },
            None => {},
        }
        proof {
            lemma_fits_same(m2, self.model());
        }
        self.drain()
    }

    fn ensure_track(&mut self, track: &TrackInfo)
        requires
            model_fits(old(self).model()),
            track_fits(track@),
        ensures
            final(self).model() == ensure_track_spec(old(self).model(), track@),
            model_fits(final(self).model()),
    {
        match track.kind {
            TrackKind::Audio => {
                if self.audio.is_none() {
                    self.audio = Some(track.copy());
                    self.patch_header_flags();
                }
            },
            TrackKind::Video => {
                if self.video.is_none() {
                    self.video = Some(track.copy());
                    self.patch_header_flags();
                }
            },
            TrackKind::Data => {},
        }
    }

    fn flags(&self) -> (f: u8)
        ensures
            f == flags_byte(self.audio is Some, self.video is Some),
    {
        let mut flags: u8 = 0;
        if self.audio.is_some() {
            flags = flags + 4;
        }
        if self.video.is_some() {
            flags = flags + 1;
        }
        flags
    }

    fn patch_header_flags(&mut self)
        ensures
            final(self).model() == patch_flags(old(self).model()),
    {
        if !self.header_written {
            return;
        }
        let flags = self.flags();
        if self.output.len() > 4 {
            self.output.set(4, flags);
        }
    }

    fn write_config_for_track(&mut self, track: &TrackInfo) -> (r: Result<(), FlvError>)
        requires
            track_fits(track@),
        ensures
            (final(self).model(), r) == config_spec(old(self).model(), track@),
            same_holdings(old(self).model(), final(self).model()),
    {
        match track.kind {
            TrackKind::Audio => {
                if self.audio_config_emitted {
                    return Ok(());
                }
                if track.codec == CodecId::Aac {
                    let body = match build_aac_config(track) {
                        Ok(b) => b,
                        Err(e) => {
                            return Err(e);
                        },
                    };
                    self.write_tag(8, 0, body.as_slice());
                }
                self.audio_config_emitted = true;
            },
            TrackKind::Video => {
                if self.video_config_emitted {
                    return Ok(());
                }
                if track.codec == CodecId::H264 || track.codec == CodecId::H265 {
                    let body = match build_video_config(track) {
                        Ok(b) => b,
                        Err(e) => {
                            return Err(e);
                        },
                    };
                    self.write_tag(9, 0, body.as_slice());
                }
                self.video_config_emitted = true;
            },
            TrackKind::Data => {},
        }
        Ok(())
    }

    fn write_header(&mut self)
        ensures
            final(self).model() == write_header_spec(old(self).model()),
            same_holdings(old(self).model(), final(self).model()),
    {
        if self.header_written {
            return;
        }
        let flags = self.flags();
        let ghost before = self.output@;
        self.output.push(0x46);
        self.output.push(0x4c);
        self.output.push(0x56);
        self.output.push(1);
        self.output.push(flags);
        crate::isobmff::boxes::write_u32(&mut self.output, 9);
        if self.file_mode {
            crate::isobmff::boxes::write_u32(&mut self.output, 0);
        }
        assert(self.output@ =~= before + header_bytes(self.file_mode, flags));
        self.header_written = true;
    }

    /// Index of the oldest queued packet.
    fn oldest_index(&self) -> (i: usize)
        requires
            self.queue@.len() > 0,
        ensures
            i as int == oldest(self.model().queue),
            i < self.queue@.len(),
    {
        let q = &self.queue;
        let ghost mq = self.model().queue;
        let mut best: usize = 0;
        let mut best_key = order_key_exec(&q[0].0);
        let mut i: usize = 1;
        assert(mq.subrange(0, 1).len() == 1);
        while i < q.len()
            invariant
                1 <= i <= q@.len(),
                mq == q@.map_values(|e: QueuedPacket| (e.0@, e.1@)),
                best < i,
                best as int == oldest(mq.subrange(0, i as int)),
                best_key == order_key(mq[best as int].0),
            decreases q@.len() - i,
        {
            proof {
                let s = mq.subrange(0, i + 1);
                assert(s.drop_last() =~= mq.subrange(0, i as int));
                assert(s.last() == mq[i as int]);
                assert(s[best as int] == mq[best as int]);
            }
            let k = order_key_exec(&q[i].0);
            if key_less(k, best_key) {
                best = i;
                best_key = k;
            }
            i += 1;
        }
        assert(mq.subrange(0, i as int) =~= mq);
        best
    }

    fn flush_oldest(&mut self) -> (r: Result<(), FlvError>)
        requires
            model_fits(old(self).model()),
        ensures
            (final(self).model(), r) == flush_oldest_spec(old(self).model()),
            model_fits(final(self).model()),
    {
        if self.queue.len() == 0 {
            return Err(FlvError::MalformedTag);
        }
        let i = self.oldest_index();
        let ghost m = self.model();
        let (packet, track) = self.queue.remove(i);
        proof {
            assert(m.queue[i as int] == (packet@, track@));
            assert(entry_fits(m.queue[i as int]));
            let q2 = m.queue.remove(i as int);
            assert(self.model().queue =~= q2);
            assert forall|j: int| 0 <= j < q2.len() implies entry_fits(#[trigger] q2[j]) by {
                if j < i {
                    assert(q2[j] == m.queue[j]);
                } else {
                    assert(q2[j] == m.queue[j + 1]);
                }
            }
        }
        let ghost m1 = self.model();
        let r = self.write_packet(&packet, &track);
        proof {
            lemma_fits_same(m1, self.model());
        }
        r
    }

    /// Write the oldest packets while the queue is over its limit.
    fn trim(&mut self) -> (r: Result<(), FlvError>)
        requires
            model_fits(old(self).model()),
        ensures
            (final(self).model(), r) == flush_n(old(self).model(), excess(old(self).model())),
            model_fits(final(self).model()),
    {
        let ghost target = flush_n(self.model(), excess(self.model()));
        while self.queue.len() > self.max_queue_depth
            invariant
                model_fits(self.model()),
                flush_n(self.model(), excess(self.model())) == target,
                target == flush_n(old(self).model(), excess(old(self).model())),
            decreases self.queue@.len(),
        {
            let ghost before = self.model();
            assert(before.queue.len() == self.queue@.len());
            assert(excess(before) > 0);
            match self.flush_oldest() {
                Ok(()) => {},
                Err(e) => {
                    assert(flush_n(before, excess(before)) == (self.model(), Err::<(), FlvError>(e)));
                    return Err(e);
                },
            }
            proof {
                assert(self.model().queue.len() == before.queue.len() - 1) by {
                    lemma_oldest_in_range(before.queue);
                }
            }
        }
        Ok(())
    }

    /// Write every queued packet, oldest first.
    fn drain(&mut self) -> (r: Result<(), FlvError>)
        requires
            model_fits(old(self).model()),
        ensures
            (final(self).model(), r) == flush_n(old(self).model(), old(self).model().queue.len()),
            model_fits(final(self).model()),
    {
        let ghost target = flush_n(self.model(), self.model().queue.len());
        while self.queue.len() > 0
            invariant
                model_fits(self.model()),
                flush_n(self.model(), self.model().queue.len()) == target,
                target == flush_n(old(self).model(), old(self).model().queue.len()),
            decreases self.queue@.len(),
        {
            let ghost before = self.model();
            assert(before.queue.len() == self.queue@.len());
            assert(before.queue.len() > 0);
            match self.flush_oldest() {
                Ok(()) => {},
                Err(e) => {
                    assert(flush_n(before, before.queue.len()) == (self.model(), Err::<(), FlvError>(e)));
                    return Err(e);
                },
            }
            proof {
                assert(self.model().queue.len() == before.queue.len() - 1) by {
                    lemma_oldest_in_range(before.queue);
                }
            }
        }
        Ok(())
    }

    fn write_packet(&mut self, packet: &MediaPacket, track: &TrackInfo) -> (r: Result<(), FlvError>)
        requires
            packet_fits(packet@),
        ensures
            (final(self).model(), r) == write_packet_spec(old(self).model(), packet@, track@),
            same_holdings(old(self).model(), final(self).model()),
    {
        let dts_ms = match packet.time.dts_ms() {
            Some(d) => d,
            None => match packet.time.pts_ms() {
                Some(p) => p,
                None => 0,
            },
        };
        let pts_ms = match packet.time.pts_ms() {
            Some(p) => p,
            None => dts_ms,
        };
        match track.kind {
            TrackKind::Audio => self.write_audio_packet(packet, track, dts_ms),
            TrackKind::Video => self.write_video_packet(packet, track, dts_ms, pts_ms),
            TrackKind::Data => Ok(()),
        }
    }

    fn write_audio_packet(&mut self, packet: &MediaPacket, track: &TrackInfo, dts_ms: i64) -> (r: Result<
        (),
        FlvError,
    >)
        requires
            packet_fits(packet@),
            track.kind == TrackKind::Audio,
            dts_ms == write_times(packet@).0,
        ensures
            (final(self).model(), r) == write_packet_spec(old(self).model(), packet@, track@),
            same_holdings(old(self).model(), final(self).model()),
    {
        let payload = packet.payload.as_slice();
        let fmt = match track.audio_format {
            Some(f) => f,
            None => {
                return Err(FlvError::UnsupportedCodec);
            },
        };
        #[verifier::truncate]
        let channels = fmt.channels as u8;
        let body = match track.codec {
            CodecId::Aac => build_aac_raw_frame(track, payload),
            CodecId::Mp3 => build_audio_raw_frame(CodecId::Mp3, fmt.sample_rate, channels, payload),
            CodecId::G711A => build_audio_raw_frame(CodecId::G711A, 8000, channels, payload),
            CodecId::G711U => build_audio_raw_frame(CodecId::G711U, 8000, channels, payload),
            _ => {
                return Err(FlvError::UnsupportedCodec);
            },
        };
        #[verifier::truncate]
        let ts = dts_ms as u32;
        self.write_tag(8, ts, body.as_slice());
        Ok(())
    }

    fn write_video_packet(
        &mut self,
        packet: &MediaPacket,
        track: &TrackInfo,
        dts_ms: i64,
        pts_ms: i64,
    ) -> (r: Result<(), FlvError>)
        requires
            packet_fits(packet@),
            track.kind == TrackKind::Video,
            dts_ms == write_times(packet@).0,
            pts_ms == write_times(packet@).1,
        ensures
            (final(self).model(), r) == write_packet_spec(old(self).model(), packet@, track@),
            same_holdings(old(self).model(), final(self).model()),
    {
        let payload = packet.payload.as_slice();
        let d = pts_ms - dts_ms;
        if d < -2147483648 || d > 2147483647 {
            return Err(FlvError::InvalidTimestamp);
        }
        let cts = d as i32;
        #[verifier::truncate]
        let timestamp = dts_ms as u32;
        let body = match build_video_frame(track.codec, packet.flags.is_keyframe, 1, cts, payload) {
            Ok(b) => b,
            Err(e) => {
                return Err(e);
            },
        };
        self.write_tag(9, timestamp, body.as_slice());
        Ok(())
    }

    fn write_tag(&mut self, tag_type: u8, timestamp: u32, data: &[u8])
        requires
            data@.len() + 11 <= u32::MAX,
        ensures
            final(self).model() == write_tag_spec(old(self).model(), tag_type, timestamp, data@),
            same_holdings(old(self).model(), final(self).model()),
    {
        let data_size = data.len() as u32;
        let total = tag_total_size(data_size);
        let ghost before = self.output@;
        self.write_tag_header(tag_type, data_size, timestamp);
        append(&mut self.output, data);
        if self.file_mode {
            crate::isobmff::boxes::write_u32(&mut self.output, total);
        }
        assert(self.output@ =~= before + tag_bytes(self.file_mode, tag_type, timestamp, data@));
        self.previous_tag_size = total;
    }

    fn write_tag_header(&mut self, tag_type: u8, data_size: u32, timestamp: u32)
        ensures
            final(self).output@ == old(self).output@ + seq![tag_type] + bytes24(data_size as int)
                + bytes24(timestamp as int % 0x100_0000) + seq![(timestamp / 0x100_0000) as u8]
                + seq![0u8, 0u8, 0u8],
            final(self).model() == (FlvMuxModel { output: final(self).output@, ..old(self).model() }),
    {
        let ts_lower = timestamp % 0x100_0000;
        let ts_extended = (timestamp / 0x100_0000) as u8;
        let ghost before = self.output@;
        self.output.push(tag_type);
        crate::isobmff::boxes::write_u24(&mut self.output, data_size);
        crate::isobmff::boxes::write_u24(&mut self.output, ts_lower);
        self.output.push(ts_extended);
        self.output.push(0);
        self.output.push(0);
        self.output.push(0);
        assert(self.output@ =~= before + seq![tag_type] + bytes24(data_size as int) + bytes24(
            timestamp as int % 0x100_0000,
        ) + seq![(timestamp / 0x100_0000) as u8] + seq![0u8, 0u8, 0u8]);
    }
}

impl Default for FlvMuxer {
    /// A file-mode muxer with a reorder queue of 32 packets.
    fn default() -> (m: Self)
        ensures
            m.model() == (FlvMuxModel {
                file_mode: true,
                max_queue_depth: 32,
                output: Seq::empty(),
                audio: None,
                video: None,
                audio_config_emitted: false,
                video_config_emitted: false,
                queue: Seq::empty(),
                header_written: false,
                previous_tag_size: 0,
            }),
            model_fits(m.model()),
    {
        Self::new(true, 32)
    }
}

/// The oldest queued packet is one of them.
proof fn lemma_oldest_in_range(q: Seq<(PacketView, TrackView)>)
    requires
        q.len() > 0,
    ensures
        0 <= oldest(q) < q.len(),
    decreases q.len(),
{
    if q.len() > 1 {
        lemma_oldest_in_range(q.drop_last());
    }
}

fn order_key_exec(p: &MediaPacket) -> (k: Option<i64>)
    ensures
        k == order_key(p@),
{
    match p.time.dts_ms() {
        Some(d) => Some(d),
        None => p.time.pts_ms(),
    }
}

fn key_less(a: Option<i64>, b: Option<i64>) -> (r: bool)
    ensures
        r == key_lt(a, b),
{
    match (a, b) {
        (None, Some(_)) => true,
        (Some(x), Some(y)) => x < y,
        _ => false,
    }
}

/// Build an AAC sequence header tag body.
pub fn build_aac_config(track: &TrackInfo) -> (r: Result<Vec<u8>, FlvError>)
    ensures
        match aac_config_body(track@) {
            Ok(b) => r matches Ok(v) && v@ == b,
            Err(e) => r == Err::<Vec<u8>, FlvError>(e),
        },
{
    let bytes = match track.codec_config.bytes() {
        Some(b) => b,
        None => {
            return Err(FlvError::MalformedTag);
        },
    };
    let (rate, channels) = audio_params_exec(track);
    let mut out = Vec::new();
    out.push(AudioTagHeader::build_header_byte(CodecId::Aac, rate, channels));
    out.push(0);
    append(&mut out, bytes);
    Ok(out)
}

fn audio_params_exec(track: &TrackInfo) -> (r: (u32, u8))
    ensures
        r == audio_params(track@),
{
    match track.audio_format {
        Some(f) => {
            #[verifier::truncate]
            let ch = f.channels as u8;
            (f.sample_rate, ch)
        },
        None => (44100, 2),
    }
}

/// Build an AAC raw frame tag body.
pub fn build_aac_raw_frame(track: &TrackInfo, payload: &[u8]) -> (out: Vec<u8>)
    ensures
        out@ == seq![header_byte_spec(CodecId::Aac, audio_params(track@).0, audio_params(track@).1), 1u8]
            + payload@,
{
    let (rate, channels) = audio_params_exec(track);
    let mut out = Vec::new();
    out.push(AudioTagHeader::build_header_byte(CodecId::Aac, rate, channels));
    out.push(1);
    append(&mut out, payload);
    out
}

/// Build an AVC / HEVC sequence header tag body.
pub fn build_video_config(track: &TrackInfo) -> (r: Result<Vec<u8>, FlvError>)
    ensures
        match video_config_body(track@) {
            Ok(b) => r matches Ok(v) && v@ == b,
            Err(e) => r == Err::<Vec<u8>, FlvError>(e),
        },
{
    let codec_id = match track.codec {
        CodecId::H264 => VideoCodecId::H264,
        CodecId::H265 => VideoCodecId::H265,
        _ => {
            return Err(FlvError::UnsupportedCodec);
        },
    };
    let bytes = match track.codec_config.bytes() {
        Some(b) => b,
        None => {
            return Err(FlvError::MalformedTag);
        },
    };
    let mut out = VideoTagHeader::build_avc_hevc(FrameType::Keyframe, codec_id, 0, 0);
    append(&mut out, bytes);
    Ok(out)
}

} // verus!
