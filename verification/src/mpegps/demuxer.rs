//! MPEG-2 Program Stream demuxing: pack, system and PES packet framing.
//!
//! The demuxer splits the byte stream into PES packets and hands out their
//! payloads with the PES timestamps; assembling elementary-stream frames from
//! those payloads is the caller's part.

use vstd::prelude::*;

use crate::bytes::be16;
use crate::isobmff::boxes::{append, copy_range, slice_range};
use crate::media::{CodecId, Timestamp};
use crate::mpegps::error::{DEFAULT_MAX_PES_SIZE, MpegPsError};
use crate::mpegps::pack::{is_pack_start_code, is_system_start_code, pack_header_spec, parse_pack_header};
use crate::mpegps::pes::{is_audio_stream, is_video_stream, parse_pes_header, pes_error_spec};
use crate::mpegps::scan::{find_ps_boundary, find_start_code, first_ps_boundary, first_start_code};
use crate::mpegts::pes::pes_header_spec;

verus! {

/// Default maximum input buffer size in bytes.
pub const DEFAULT_MAX_BUFFER_SIZE: usize = 32 * 1024 * 1024;

/// Default maximum NAL size emitted by the video ES assembler.
pub const DEFAULT_MAX_NAL_SIZE: usize = 16 * 1024 * 1024;

/// True for private stream 2 (0xBF) and the reserved/private ids 0xF0..=0xFE,
/// whose packets carry no elementary stream data the demuxer forwards.
pub fn is_private_stream(stream_id: u8) -> (b: bool)
    ensures
        b == is_private_spec(stream_id),
{
    stream_id == 0xBF || (stream_id >= 0xF0 && stream_id <= 0xFE)
}

/// A private stream id: 0xBF or 0xF0..=0xFE.
pub open spec fn is_private_spec(stream_id: u8) -> bool {
    stream_id == 0xBF || (0xF0 <= stream_id <= 0xFE)
}

/// Configuration for the MPEG-PS demuxer.
#[derive(Debug, Clone, Copy, PartialEq, Eq)]
pub struct MpegPsConfig {
    /// Expected video codec: `H264` or `H265`.
    pub video_codec: CodecId,
    /// Maximum accepted PES packet size in bytes.
    pub max_packet_size_bytes: usize,
    /// Maximum internal buffer size in bytes.
    pub max_buffer_bytes: usize,
    /// Maximum single NAL size emitted by the video ES assembler.
    pub max_nal_size_bytes: usize,
}

impl MpegPsConfig {
    /// The default limits with the given video codec.
    pub open spec fn with_codec(codec: CodecId) -> Self {
        MpegPsConfig {
            video_codec: codec,
            max_packet_size_bytes: DEFAULT_MAX_PES_SIZE,
            max_buffer_bytes: DEFAULT_MAX_BUFFER_SIZE,
            max_nal_size_bytes: DEFAULT_MAX_NAL_SIZE,
        }
    }

    /// Create a new config for H.264 video.
    pub fn h264() -> (c: Self)
        ensures
            c == Self::with_codec(CodecId::H264),
    {
        MpegPsConfig {
            video_codec: CodecId::H264,
            max_packet_size_bytes: DEFAULT_MAX_PES_SIZE,
            max_buffer_bytes: DEFAULT_MAX_BUFFER_SIZE,
            max_nal_size_bytes: DEFAULT_MAX_NAL_SIZE,
        }
    }

    /// Create a new config for H.265 video.
    pub fn h265() -> (c: Self)
        ensures
            c == Self::with_codec(CodecId::H265),
    {
        MpegPsConfig {
            video_codec: CodecId::H265,
            max_packet_size_bytes: DEFAULT_MAX_PES_SIZE,
            max_buffer_bytes: DEFAULT_MAX_BUFFER_SIZE,
            max_nal_size_bytes: DEFAULT_MAX_NAL_SIZE,
        }
    }
}

impl Default for MpegPsConfig {
    /// The H.264 configuration.
    fn default() -> (c: Self)
        ensures
            c == Self::with_codec(CodecId::H264),
    {
        Self::h264()
    }
}

/// What the demuxer hands out.
#[derive(Debug, Clone, PartialEq, Eq)]
pub enum PsEvent {
    /// The payload of a video PES packet with its timestamps (90 kHz).
    Video { stream_id: u8, pts: Option<Timestamp>, dts: Option<Timestamp>, payload: Vec<u8> },
    /// The payload of an audio PES packet with its timestamps (90 kHz).
    Audio { stream_id: u8, pts: Option<Timestamp>, dts: Option<Timestamp>, payload: Vec<u8> },
    /// The payload of a private-stream packet.
    Metadata { stream_id: u8, payload: Vec<u8> },
    /// End of stream: no more packets follow.
    Eof,
}

/// A `PsEvent` with its payload as a sequence.
pub enum PsOut {
    Video { stream_id: u8, pts: Option<Timestamp>, dts: Option<Timestamp>, payload: Seq<u8> },
    Audio { stream_id: u8, pts: Option<Timestamp>, dts: Option<Timestamp>, payload: Seq<u8> },
    Metadata { stream_id: u8, payload: Seq<u8> },
    Eof,
}

impl View for PsEvent {
    type V = PsOut;

    open spec fn view(&self) -> PsOut {
        match self {
            PsEvent::Video { stream_id, pts, dts, payload } => PsOut::Video {
                stream_id: *stream_id,
                pts: *pts,
                dts: *dts,
                payload: payload@,
            },
            PsEvent::Audio { stream_id, pts, dts, payload } => PsOut::Audio {
                stream_id: *stream_id,
                pts: *pts,
                dts: *dts,
                payload: payload@,
            },
            PsEvent::Metadata { stream_id, payload } => PsOut::Metadata {
                stream_id: *stream_id,
                payload: payload@,
            },
            PsEvent::Eof => PsOut::Eof,
        }
    }
}

/// The framing state: buffered bytes, and whether the stream has ended.
pub struct PsState {
    pub buf: Seq<u8>,
    pub ended: bool,
}

/// `s` with its first `n` bytes consumed.
pub open spec fn drained(s: PsState, n: int) -> PsState {
    PsState { buf: s.buf.subrange(n, s.buf.len() as int), ended: s.ended }
}

/// Skipping a system header or other system packet at the front.
pub open spec fn system_step(cfg: MpegPsConfig, s: PsState) -> (
    PsState,
    Result<(bool, Option<PsOut>), MpegPsError>,
) {
    let b = s.buf;
    if b.len() < 6 {
        (s, Ok((false, None)))
    } else {
        let total = 6 + be16(b, 4);
        if total > cfg.max_packet_size_bytes {
            (
                s,
                Err(
                    MpegPsError::PacketTooLarge {
                        size: total as usize,
                        max: cfg.max_packet_size_bytes,
                    },
                ),
            )
        } else if b.len() < total {
            (s, Ok((false, None)))
        } else {
            (drained(s, total), Ok((true, None)))
        }
    }
}

/// Where the PES packet at the front ends: `Ok(None)` when more bytes are
/// needed. A packet of length 0 runs to the next program-stream boundary, or
/// to the end of the buffer once the stream has ended.
pub open spec fn pes_end(cfg: MpegPsConfig, s: PsState) -> Result<Option<int>, MpegPsError> {
    let b = s.buf;
    let pl = be16(b, 4);
    if pl == 0 {
        match first_ps_boundary(b, 6) {
            Some(e) => Ok(Some(e)),
            None => if b.len() > cfg.max_buffer_bytes {
                Err(MpegPsError::BufferExceeded { max: cfg.max_buffer_bytes })
            } else if s.ended {
                Ok(Some(b.len() as int))
            } else {
                Ok(None)
            },
        }
    } else {
        let total = 6 + pl;
        if total > cfg.max_packet_size_bytes {
            Err(MpegPsError::PacketTooLarge { size: total as usize, max: cfg.max_packet_size_bytes })
        } else if b.len() < total {
            Ok(None)
        } else {
            Ok(Some(total))
        }
    }
}

/// Taking the PES packet of stream `code` off the front.
pub open spec fn pes_step(cfg: MpegPsConfig, s: PsState, code: u8) -> (
    PsState,
    Result<(bool, Option<PsOut>), MpegPsError>,
) {
    let b = s.buf;
    if b.len() < 6 {
        (s, Ok((false, None)))
    } else {
        match pes_end(cfg, s) {
            Err(e) => (s, Err(e)),
            Ok(None) => (s, Ok((false, None))),
            Ok(Some(end)) => if is_private_spec(code) {
                (
                    drained(s, end),
                    Ok(
                        (
                            true,
                            if end > 6 {
                                Some(PsOut::Metadata { stream_id: code, payload: b.subrange(6, end) })
                            } else {
                                None
                            },
                        ),
                    ),
                )
            } else if end < 9 {
                (drained(s, end), Ok((true, None)))
            } else {
                match pes_header_spec(b.subrange(0, end)) {
                    Ok(h) => {
                        let payload = b.subrange(h.header_size as int, end);
                        (
                            drained(s, end),
                            Ok(
                                (
                                    true,
                                    Some(
                                        if 0xE0 <= code <= 0xEF {
                                            PsOut::Video {
                                                stream_id: code,
                                                pts: h.pts,
                                                dts: h.dts,
                                                payload,
                                            }
                                        } else {
                                            PsOut::Audio {
                                                stream_id: code,
                                                pts: h.pts,
                                                dts: h.dts,
                                                payload,
                                            }
                                        },
                                    ),
                                ),
                            ),
                        )
                    },
                    Err(e) => if pes_error_spec(e) == MpegPsError::NeedMoreData {
                        (drained(s, end), Ok((true, None)))
                    } else {
                        (s, Err(pes_error_spec(e)))
                    },
                }
            },
        }
    }
}

/// One framing step: the next state, and whether progress was made with what
/// it hands out. Bytes before the first start code are dropped; with no start
/// code only the last two bytes are kept; a program end code ends the stream;
/// pack headers and system packets are skipped; PES packets are taken off
/// and handed out; other start codes are skipped.
pub open spec fn ps_step(cfg: MpegPsConfig, s: PsState) -> (
    PsState,
    Result<(bool, Option<PsOut>), MpegPsError>,
) {
    let b = s.buf;
    if b.len() == 0 {
        (s, Ok((false, None)))
    } else {
        match first_start_code(b, 0) {
            None => {
                let keep = if b.len() >= 2 {
                    b.len() - 2
                } else {
                    0
                };
                let s2 = if keep > 0 {
                    drained(s, keep)
                } else {
                    s
                };
                if s2.buf.len() > cfg.max_buffer_bytes {
                    (s2, Err(MpegPsError::BufferExceeded { max: cfg.max_buffer_bytes }))
                } else {
                    (s2, Ok((false, None)))
                }
            },
            Some(p) => if p > 0 {
                (drained(s, p), Ok((true, None)))
            } else if b.len() < 4 {
                (s, Ok((false, None)))
            } else {
                let code = b[3];
                if code == 0xB9 {
                    (PsState { buf: b.subrange(4, b.len() as int), ended: true }, Ok((true, None)))
                } else if code == 0xBA {
                    match pack_header_spec(b) {
                        Ok(h) => (drained(s, h.end_offset as int), Ok((true, None))),
                        Err(e) => if e == MpegPsError::NeedMoreData {
                            (s, Ok((false, None)))
                        } else {
                            (s, Err(e))
                        },
                    }
                } else if code == 0xBB || code == 0xBC || code == 0xBE || code == 0xBF {
                    system_step(cfg, s)
                } else if (0xE0 <= code <= 0xEF) || (0xC0 <= code <= 0xDF) || code == 0xBD
                    || is_private_spec(code) {
                    pes_step(cfg, s, code)
                } else {
                    (drained(s, 4), Ok((true, None)))
                }
            },
        }
    }
}

/// Every step that makes progress consumes bytes.
pub proof fn lemma_progress_consumes(cfg: MpegPsConfig, s: PsState)
    ensures
        ps_step(cfg, s).1 matches Ok((true, _)) ==> ps_step(cfg, s).0.buf.len() < s.buf.len(),
{
    let b = s.buf;
    if b.len() > 0 {
        lemma_first_start_code_bounds(b, 0);
        match first_start_code(b, 0) {
            Some(p) => {
                if p == 0 && b.len() >= 4 {
                    let code = b[3];
                    if code == 0xBA {
                        match pack_header_spec(b) {
                            Ok(h) => {},
                            Err(e) => {},
                        }
                    } else if !(code == 0xBB || code == 0xBC || code == 0xBE || code == 0xBF) && (
                    (0xE0 <= code <= 0xEF) || (0xC0 <= code <= 0xDF) || code == 0xBD
                        || is_private_spec(code)) && b.len() >= 6 {
                        lemma_first_ps_boundary_bounds(b, 6);
                    }
                }
            },
            None => {},
        }
    }
}

/// A boundary found lies within the bytes searched.
pub proof fn lemma_first_ps_boundary_bounds(d: Seq<u8>, i: int)
    ensures
        first_ps_boundary(d, i) matches Some(e) ==> i <= e && e + 3 < d.len(),
    decreases d.len() - i,
{
    if i < 0 || i + 3 >= d.len() {
    } else if crate::mpegps::scan::ps_boundary_at(d, i) {
    } else {
        lemma_first_ps_boundary_bounds(d, i + 1);
    }
}

/// A start code found lies within the bytes searched.
pub proof fn lemma_first_start_code_bounds(d: Seq<u8>, i: int)
    ensures
        first_start_code(d, i) matches Some(p) ==> i <= p && p + 2 < d.len(),
    decreases d.len() - i,
{
    if i < 0 || i + 2 >= d.len() {
    } else if crate::mpegps::scan::start_code_at(d, i) {
    } else {
        lemma_first_start_code_bounds(d, i + 1);
    }
}

/// Steps until one hands something out, fails, or makes no progress.
pub open spec fn ps_run(cfg: MpegPsConfig, s: PsState) -> (PsState, Result<Option<PsOut>, MpegPsError>)
    decreases s.buf.len(),
{
    let (s2, r) = ps_step(cfg, s);
    match r {
        Err(e) => (s2, Err(e)),
        Ok((progress, out)) => match out {
            Some(o) => (s2, Ok(Some(o))),
            None => if progress && s2.buf.len() < s.buf.len() {
                ps_run(cfg, s2)
            } else {
                (s2, Ok(None))
            },
        },
    }
}

/// Incremental MPEG-2 Program Stream demuxer.
#[derive(Debug)]
pub struct MpegPsDemuxer {
    config: MpegPsConfig,
    buffer: Vec<u8>,
    ended: bool,
    eof_emitted: bool,
    error: Option<MpegPsError>,
}

impl MpegPsDemuxer {
    /// The configuration.
    pub closed spec fn config(self) -> MpegPsConfig {
        self.config
    }

    /// The framing state.
    pub closed spec fn state(self) -> PsState {
        PsState { buf: self.buffer@, ended: self.ended }
    }

    /// The end of stream has been handed out.
    pub closed spec fn eof_emitted(self) -> bool {
        self.eof_emitted
    }

    /// The error a push ran into, reported by every later `next_event`.
    pub closed spec fn error(self) -> Option<MpegPsError> {
        self.error
    }

    /// Create a new demuxer with the given configuration.
    pub fn new(config: MpegPsConfig) -> (d: Self)
        ensures
            d.config() == config,
            d.state().buf.len() == 0,
            !d.state().ended,
            !d.eof_emitted(),
            d.error() is None,
    {
        MpegPsDemuxer { config, buffer: Vec::new(), ended: false, eof_emitted: false, error: None }
    }

    /// Push more MPEG-PS bytes into the demuxer. Bytes beyond the buffer limit
    /// are refused and the limit error is kept for `next_event`.
    pub fn push(&mut self, data: &[u8])
        ensures
            final(self).config() == old(self).config(),
            final(self).eof_emitted() == old(self).eof_emitted(),
            final(self).state().ended == old(self).state().ended,
            if data@.len() == 0 || old(self).error() is Some {
                final(self).state() == old(self).state() && final(self).error() == old(self).error()
            } else if old(self).state().buf.len() + data@.len() > old(self).config().max_buffer_bytes {
                final(self).state() == old(self).state() && final(self).error() == Some(
                    MpegPsError::BufferExceeded { max: old(self).config().max_buffer_bytes },
                )
            } else {
                final(self).state().buf == old(self).state().buf + data@ && final(self).error()
                    is None
            },
    {
        if data.len() == 0 || self.error.is_some() {
            return;
        }
        if data.len() > self.config.max_buffer_bytes || self.buffer.len()
            > self.config.max_buffer_bytes - data.len() {
            self.error = Some(MpegPsError::BufferExceeded { max: self.config.max_buffer_bytes });
            return;
        }
        append(&mut self.buffer, data);
    }

    /// Signal that no more bytes will arrive.
    pub fn end(&mut self) -> (r: Result<(), MpegPsError>)
        ensures
            r is Ok,
            final(self).state().ended,
            final(self).state().buf == old(self).state().buf,
            final(self).config() == old(self).config(),
            final(self).eof_emitted() == old(self).eof_emitted(),
            final(self).error() == old(self).error(),
    {
        if self.ended {
            return Ok(());
        }
        self.ended = true;
        Ok(())
    }

    /// Reset the demuxer state, discarding any buffered data.
    pub fn reset(&mut self)
        ensures
            final(self).config() == old(self).config(),
            final(self).state().buf.len() == 0,
            !final(self).state().ended,
            !final(self).eof_emitted(),
            final(self).error() is None,
    {
        self.buffer = Vec::new();
        self.ended = false;
        self.eof_emitted = false;
        self.error = None;
    }

    fn drain(&mut self, n: usize)
        requires
            n <= old(self).buffer@.len(),
        ensures
            final(self).state() == drained(old(self).state(), n as int),
            final(self).config() == old(self).config(),
            final(self).eof_emitted() == old(self).eof_emitted(),
            final(self).error() == old(self).error(),
    {
        let rest = copy_range(self.buffer.as_slice(), n, self.buffer.len());
        self.buffer = rest;
    }

    fn skip_system_packet(&mut self) -> (r: Result<bool, MpegPsError>)
        ensures
            final(self).state() == system_step(old(self).config(), old(self).state()).0,
            match system_step(old(self).config(), old(self).state()).1 {
                Ok((p, _)) => r == Ok::<bool, MpegPsError>(p),
                Err(e) => r == Err::<bool, MpegPsError>(e),
            },
            final(self).config() == old(self).config(),
            final(self).eof_emitted() == old(self).eof_emitted(),
            final(self).error() == old(self).error(),
    {
        if self.buffer.len() < 6 {
            return Ok(false);
        }
        let length = (self.buffer[4] as usize) * 256 + (self.buffer[5] as usize);
        let total = 6 + length;
        if total > self.config.max_packet_size_bytes {
            return Err(
                MpegPsError::PacketTooLarge { size: total, max: self.config.max_packet_size_bytes },
            );
        }
        if self.buffer.len() < total {
            return Ok(false);
        }
        self.drain(total);
        Ok(true)
    }

    fn process_pes(&mut self, code: u8) -> (r: Result<(bool, Option<PsEvent>), MpegPsError>)
        requires
            old(self).buffer@.len() >= 4,
        ensures
            final(self).state() == pes_step(old(self).config(), old(self).state(), code).0,
            match pes_step(old(self).config(), old(self).state(), code).1 {
                Ok((p, None)) => r matches Ok((q, None)) && q == p,
                Ok((p, Some(o))) => r matches Ok((q, Some(ev))) && q == p && ev@ == o,
                Err(e) => r == Err::<(bool, Option<PsEvent>), MpegPsError>(e),
            },
            final(self).config() == old(self).config(),
            final(self).eof_emitted() == old(self).eof_emitted(),
            final(self).error() == old(self).error(),
    {
        if self.buffer.len() < 6 {
            return Ok((false, None));
        }
        let packet_length = (self.buffer[4] as usize) * 256 + (self.buffer[5] as usize);
        let ghost s = self.state();
        let end = if packet_length == 0 {
            match find_ps_boundary(self.buffer.as_slice(), 6) {
                Some(e) => {
                    proof {
                        lemma_first_ps_boundary_bounds(self.buffer@, 6);
                    }
                    e
                },
                None => {
                    if self.buffer.len() > self.config.max_buffer_bytes {
                        return Err(MpegPsError::BufferExceeded { max: self.config.max_buffer_bytes });
                    }
                    if self.ended {
                        self.buffer.len()
                    } else {
                        return Ok((false, None));
                    }
                },
            }
        } else {
            let total = 6 + packet_length;
            if total > self.config.max_packet_size_bytes {
                return Err(
                    MpegPsError::PacketTooLarge {
                        size: total,
                        max: self.config.max_packet_size_bytes,
                    },
                );
            }
            if self.buffer.len() < total {
                return Ok((false, None));
            }
            total
        };
        assert(pes_end(self.config, s) == Ok::<Option<int>, MpegPsError>(Some(end as int)));
        if is_private_stream(code) {
            let ev = if end > 6 {
                Some(PsEvent::Metadata { stream_id: code, payload: copy_range(self.buffer.as_slice(), 6, end) })
            } else {
                None
            };
            self.drain(end);
            return Ok((true, ev));
        }
        if end < 9 {
            self.drain(end);
            return Ok((true, None));
        }
        let header = match parse_pes_header(slice_range(self.buffer.as_slice(), 0, end)) {
            Ok(h) => h,
            Err(MpegPsError::NeedMoreData) => {
                self.drain(end);
                return Ok((true, None));
            },
            Err(e) => return Err(e),
        };
        let payload = copy_range(self.buffer.as_slice(), header.header_size, end);
        let ev = if is_video_stream(code) {
            PsEvent::Video { stream_id: code, pts: header.pts, dts: header.dts, payload }
        } else {
            PsEvent::Audio { stream_id: code, pts: header.pts, dts: header.dts, payload }
        };
        self.drain(end);
        Ok((true, Some(ev)))
    }

    fn process_one(&mut self) -> (r: Result<(bool, Option<PsEvent>), MpegPsError>)
        ensures
            final(self).state() == ps_step(old(self).config(), old(self).state()).0,
            match ps_step(old(self).config(), old(self).state()).1 {
                Ok((p, None)) => r matches Ok((q, None)) && q == p,
                Ok((p, Some(o))) => r matches Ok((q, Some(ev))) && q == p && ev@ == o,
                Err(e) => r == Err::<(bool, Option<PsEvent>), MpegPsError>(e),
            },
            final(self).config() == old(self).config(),
            final(self).eof_emitted() == old(self).eof_emitted(),
            final(self).error() == old(self).error(),
    {
        if self.buffer.len() == 0 {
            return Ok((false, None));
        }
        match find_start_code(self.buffer.as_slice(), 0) {
            Some(pos) => {
                if pos > 0 {
                    self.drain(pos);
                    return Ok((true, None));
                }
            },
            None => {
                let keep = if self.buffer.len() >= 2 {
                    self.buffer.len() - 2
                } else {
                    0
                };
                if keep > 0 {
                    self.drain(keep);
                }
                if self.buffer.len() > self.config.max_buffer_bytes {
                    return Err(MpegPsError::BufferExceeded { max: self.config.max_buffer_bytes });
                }
                return Ok((false, None));
            },
        }
        if self.buffer.len() < 4 {
            return Ok((false, None));
        }
        let code = self.buffer[3];
        if code == 0xB9 {
            self.drain(4);
            self.ended = true;
            return Ok((true, None));
        }
        if is_pack_start_code(code) {
            match parse_pack_header(self.buffer.as_slice()) {
                Ok(header) => {
                    self.drain(header.end_offset);
                    Ok((true, None))
                },
                Err(MpegPsError::NeedMoreData) => Ok((false, None)),
                Err(e) => Err(e),
            }
        } else if is_system_start_code(code) {
            let p = self.skip_system_packet()?;
            Ok((p, None))
        } else if is_video_stream(code) || is_audio_stream(code) || is_private_stream(code) {
            self.process_pes(code)
        } else {
            self.drain(4);
            Ok((true, None))
        }
    }

    /// Return the next event, or `None` if more data is needed. After the
    /// stream has ended and every packet was handed out, `Eof` comes once.
    pub fn next_event(&mut self) -> (r: Result<Option<PsEvent>, MpegPsError>)
        ensures
            final(self).config() == old(self).config(),
            final(self).error() == old(self).error(),
            old(self).error() matches Some(e) ==> r == Err::<Option<PsEvent>, MpegPsError>(e)
                && final(self).state() == old(self).state() && final(self).eof_emitted()
                == old(self).eof_emitted(),
            old(self).error() is None ==> ({
                let (s2, res) = ps_run(old(self).config(), old(self).state());
                &&& final(self).state() == s2
                &&& match res {
                    Err(e) => r == Err::<Option<PsEvent>, MpegPsError>(e) && final(self).eof_emitted()
                        == old(self).eof_emitted(),
                    Ok(Some(o)) => r matches Ok(Some(ev)) && ev@ == o && final(self).eof_emitted()
                        == old(self).eof_emitted(),
                    Ok(None) => if s2.ended && !old(self).eof_emitted() {
                        r matches Ok(Some(ev)) && ev@ == PsOut::Eof && final(self).eof_emitted()
                    } else {
                        r matches Ok(None) && final(self).eof_emitted() == old(self).eof_emitted()
                    },
                }
            }),
    {
        if let Some(err) = self.error {
            return Err(err);
        }
        let ghost start = self.state();
        loop
            invariant
                self.config == old(self).config,
                self.error == old(self).error,
                self.eof_emitted == old(self).eof_emitted,
                self.error is None,
                start == old(self).state(),
                ps_run(self.config, start) == ps_run(self.config, self.state()),
            ensures
                self.config == old(self).config,
                self.error == old(self).error,
                self.eof_emitted == old(self).eof_emitted,
                ps_run(self.config, start) == (self.state(), Ok::<Option<PsOut>, MpegPsError>(None)),
            decreases self.buffer@.len(),
        {
            let ghost before = self.state();
            proof {
                lemma_progress_consumes(self.config, before);
            }
            let (progress, ev) = self.process_one()?;
            if let Some(e) = ev {
                return Ok(Some(e));
            }
            if !progress {
                break;
            }
        }
        if self.ended && !self.eof_emitted {
            self.eof_emitted = true;
            return Ok(Some(PsEvent::Eof));
        }
        Ok(None)
    }
}

} // verus!
