//! PES packet assembly and PTS/DTS extraction.

use vstd::prelude::*;

use crate::bytes::be16;
use crate::isobmff::boxes::{append, copy_range};
use crate::media::{MediaTime, TimeBase, Timestamp};
use crate::mpegts::error::TsError;

verus! {

/// Maximum PES packet size we accept.
pub const MAX_PES_SIZE: usize = 4 * 1024 * 1024;

/// A parsed PES header.
#[derive(Debug, Clone, Copy, PartialEq, Eq)]
pub struct PesHeader {
    pub stream_id: u8,
    pub packet_length: u16,
    pub pts: Option<Timestamp>,
    pub dts: Option<Timestamp>,
    pub header_size: usize,
}

/// The 33-bit MPEG timestamp stored in the five bytes at `i`.
pub open spec fn pes_timestamp_spec(b: Seq<u8>, i: int) -> i64 {
    let high = (b[i] as int / 2) % 8;
    let mid = (b[i + 1] as int * 256 + b[i + 2] as int) / 2;
    let low = (b[i + 3] as int * 256 + b[i + 4] as int) / 2;
    (high * 0x4000_0000 + mid * 0x8000 + low) as i64
}

/// What parsing a PES header at the start of `data` gives.
pub open spec fn pes_header_spec(data: Seq<u8>) -> Result<PesHeader, TsError> {
    if data.len() < 9 {
        Err(TsError::NeedMoreData)
    } else if data[0] != 0 || data[1] != 0 || data[2] != 1 {
        Err(TsError::InvalidInput { code: 2103, context: Some("bad PES start code") })
    } else if data[6] / 64 != 2 {
        Err(TsError::InvalidInput { code: 2104, context: Some("PES marker bits invalid") })
    } else {
        let flags = data[7] / 64;
        let hdl = data[8] as int;
        let header_size = 9 + hdl;
        if data.len() < header_size {
            Err(TsError::NeedMoreData)
        } else if flags >= 2 && hdl < 5 {
            Err(TsError::NeedMoreData)
        } else if flags == 3 && hdl < 10 {
            Err(TsError::NeedMoreData)
        } else {
            Ok(
                PesHeader {
                    stream_id: data[3],
                    packet_length: be16(data, 4) as u16,
                    pts: if flags >= 2 {
                        Some(Timestamp { ticks: pes_timestamp_spec(data, 9) })
                    } else {
                        None
                    },
                    dts: if flags == 3 {
                        Some(Timestamp { ticks: pes_timestamp_spec(data, 14) })
                    } else {
                        None
                    },
                    header_size: header_size as usize,
                },
            )
        }
    }
}

/// Parse a 33-bit MPEG-1/2 timestamp from the 5 bytes at `i`.
fn parse_timestamp(buf: &[u8], i: usize) -> (t: Timestamp)
    requires
        i + 5 <= buf@.len(),
    ensures
        t.ticks == pes_timestamp_spec(buf@, i as int),
{
    let high = ((buf[i] / 2) % 8) as u64;
    let mid = ((buf[i + 1] as u64) * 256 + (buf[i + 2] as u64)) / 2;
    let low = ((buf[i + 3] as u64) * 256 + (buf[i + 4] as u64)) / 2;
    Timestamp::new((high * 0x4000_0000 + mid * 0x8000 + low) as i64)
}

/// Parse the PES header from `data` and return header size and timestamps.
pub fn parse_pes_header(data: &[u8]) -> (r: Result<PesHeader, TsError>)
    ensures
        r == pes_header_spec(data@),
{
    if data.len() < 9 {
        return Err(TsError::NeedMoreData);
    }
    if data[0] != 0x00 || data[1] != 0x00 || data[2] != 0x01 {
        return Err(TsError::invalid_input(2103, Some("bad PES start code")));
    }
    let stream_id = data[3];
    let packet_length = (data[4] as u16) * 256 + (data[5] as u16);
    let flags1 = data[6];
    if flags1 / 64 != 2 {
        return Err(TsError::invalid_input(2104, Some("PES marker bits invalid")));
    }
    let pts_dts_flags = data[7] / 64;
    let header_data_length = data[8] as usize;
    let header_size = 9 + header_data_length;
    if data.len() < header_size {
        return Err(TsError::NeedMoreData);
    }
    let mut pts = None;
    let mut dts = None;
    if pts_dts_flags >= 2 {
        if header_data_length < 5 {
            return Err(TsError::NeedMoreData);
        }
        pts = Some(parse_timestamp(data, 9));
    }
    if pts_dts_flags == 3 {
        if header_data_length < 10 {
            return Err(TsError::NeedMoreData);
        }
        dts = Some(parse_timestamp(data, 14));
    }
    Ok(PesHeader { stream_id, packet_length, pts, dts, header_size })
}

/// The media time of a PES packet: its timestamps in 90 kHz ticks.
pub fn media_time_from_pes(pts: Option<Timestamp>, dts: Option<Timestamp>) -> (t: MediaTime)
    ensures
        t.pts == (match pts {
            Some(p) => Some(p.ticks),
            None => None::<i64>,
        }),
        t.dts == (match dts {
            Some(d) => Some(d.ticks),
            None => None::<i64>,
        }),
        t.duration is None,
        t.timebase == (TimeBase { num: 1, den: 90_000 }),
{
    let p = match pts {
        Some(p) => Some(p.ticks),
        None => None,
    };
    let d = match dts {
        Some(d) => Some(d.ticks),
        None => None,
    };
    MediaTime::from_ticks(p, d, None, TimeBase { num: 1, den: 90_000 })
}

/// True if `stream_id` indicates a video stream.
pub fn is_video_stream(stream_id: u8) -> (b: bool)
    ensures
        b == (0xE0 <= stream_id <= 0xEF),
{
    stream_id >= 0xE0 && stream_id <= 0xEF
}

/// True if `stream_id` indicates an audio stream.
pub fn is_audio_stream(stream_id: u8) -> (b: bool)
    ensures
        b == ((0xC0 <= stream_id <= 0xDF) || stream_id == 0xBD),
{
    (stream_id >= 0xC0 && stream_id <= 0xDF) || stream_id == 0xBD
}


/// Assembled PES payload with its header.
#[derive(Debug, Clone, PartialEq, Eq)]
pub struct PesOutput {
    pub header: PesHeader,
    pub payload: Vec<u8>,
}

/// Abstract value of a `PesOutput`.
pub open spec fn out_view(o: PesOutput) -> (PesHeader, Seq<u8>) {
    (o.header, o.payload@)
}

/// State machine for assembling PES packets from TS payloads.
#[derive(Debug)]
pub struct PesAssembler {
    raw: Vec<u8>,
    expected_length: Option<usize>,
    header_parsed: bool,
    header: Option<PesHeader>,
}

/// Abstract state of a `PesAssembler`.
pub struct PesState {
    pub raw: Seq<u8>,
    pub expected: Option<usize>,
    pub parsed: bool,
    pub header: Option<PesHeader>,
}

/// The idle state: nothing buffered.
pub open spec fn pes_idle() -> PesState {
    PesState { raw: Seq::empty(), expected: None, parsed: false, header: None }
}

/// The consistency every assembler state keeps.
pub open spec fn pes_state_wf(s: PesState) -> bool {
    &&& s.parsed <==> s.header is Some
    &&& !s.parsed ==> s.expected is None
    &&& s.parsed ==> s.raw.len() >= s.header->0.header_size
    &&& s.expected matches Some(e) ==> e >= s.header->0.header_size && e == s.header->0.packet_length
        + 6 && s.header->0.packet_length != 0
    &&& s.raw.len() <= usize::MAX
}

/// The packet a buffered, parsed PES yields when a new one starts.
pub open spec fn pes_flush(s: PesState) -> Seq<(PesHeader, Seq<u8>)> {
    if s.parsed && s.raw.len() > 0 && s.header is Some {
        let end = match s.expected {
            Some(e) => if e < s.raw.len() {
                e as int
            } else {
                s.raw.len() as int
            },
            None => s.raw.len() as int,
        };
        seq![(s.header->0, s.raw.subrange(s.header->0.header_size as int, end))]
    } else {
        Seq::empty()
    }
}

/// Completes what the buffered bytes allow: parses the header once nine bytes
/// are there, and emits the packet once its declared length is buffered.
pub open spec fn pes_try_complete(s: PesState) -> Result<
    (PesState, Seq<(PesHeader, Seq<u8>)>),
    TsError,
> {
    if !s.parsed {
        if s.raw.len() < 9 {
            Ok((s, Seq::empty()))
        } else {
            match pes_header_spec(s.raw) {
                Err(e) => Err(e),
                Ok(h) => if h.packet_length != 0 && h.packet_length + 6 < h.header_size {
                    Err(
                        TsError::InvalidInput {
                            code: 2105,
                            context: Some("PES packet length shorter than header"),
                        },
                    )
                } else {
                    let expected: Option<usize> = if h.packet_length != 0 {
                        Some((h.packet_length + 6) as usize)
                    } else {
                        None
                    };
                    match expected {
                        Some(e) => if s.raw.len() >= e {
                            Ok(
                                (
                                    pes_idle(),
                                    seq![(h, s.raw.subrange(h.header_size as int, e as int))],
                                ),
                            )
                        } else {
                            Ok(
                                (
                                    PesState { raw: s.raw, expected, parsed: true, header: Some(h) },
                                    Seq::empty(),
                                ),
                            )
                        },
                        None => Ok(
                            (
                                PesState { raw: s.raw, expected, parsed: true, header: Some(h) },
                                Seq::empty(),
                            ),
                        ),
                    }
                },
            }
        }
    } else {
        match s.expected {
            Some(e) => if s.raw.len() >= e {
                Ok(
                    (
                        pes_idle(),
                        seq![(s.header->0, s.raw.subrange(s.header->0.header_size as int, e as int))],
                    ),
                )
            } else {
                Ok((s, Seq::empty()))
            },
            None => Ok((s, Seq::empty())),
        }
    }
}

/// What feeding one TS payload gives: the next state and the packets completed,
/// or an error (after which the state is idle unless the header was bad).
pub open spec fn pes_feed(s: PesState, payload: Seq<u8>, pusi: bool) -> Result<
    (PesState, Seq<(PesHeader, Seq<u8>)>),
    TsError,
> {
    if pusi {
        let flushed = pes_flush(s);
        if payload.len() < 3 || payload[0] != 0 || payload[1] != 0 || payload[2] != 1 {
            if payload.len() < 3 {
                Ok((PesState { raw: payload, ..pes_idle() }, flushed))
            } else {
                Err(TsError::InvalidInput { code: 2101, context: Some("PES missing start code") })
            }
        } else {
            match pes_try_complete(PesState { raw: payload, ..pes_idle() }) {
                Err(e) => Err(e),
                Ok((s2, outs)) => Ok((s2, flushed + outs)),
            }
        }
    } else if s.raw.len() == 0 && !s.parsed {
        Ok((s, Seq::empty()))
    } else if s.raw.len() + payload.len() > MAX_PES_SIZE {
        Err(TsError::LimitExceeded { limit: "pes buffer" })
    } else {
        pes_try_complete(PesState { raw: s.raw + payload, ..s })
    }
}

impl PesAssembler {
    /// The assembler's state is consistent.
    pub open spec fn wf(self) -> bool {
        pes_state_wf(self.state())
    }

    /// The assembler's abstract state.
    pub closed spec fn state(self) -> PesState {
        PesState {
            raw: self.raw@,
            expected: self.expected_length,
            parsed: self.header_parsed,
            header: self.header,
        }
    }

    /// An idle assembler.
    pub fn new() -> (a: Self)
        ensures
            a.state() == pes_idle(),
            a.wf(),
    {
        PesAssembler { raw: Vec::new(), expected_length: None, header_parsed: false, header: None }
    }

    fn reset(&mut self)
        ensures
            final(self).state() == pes_idle(),
            final(self).wf(),
    {
        self.raw = Vec::new();
        self.expected_length = None;
        self.header_parsed = false;
        self.header = None;
    }

    fn flush_into(&mut self, outputs: &mut Vec<PesOutput>)
        requires
            old(self).wf(),
        ensures
            final(self).wf(),
            final(outputs)@.map_values(|o: PesOutput| out_view(o)) == old(outputs)@.map_values(
                |o: PesOutput| out_view(o),
            ) + pes_flush(old(self).state()),
            final(self).state() == pes_idle(),
    {
        let ghost before = outputs@.map_values(|o: PesOutput| out_view(o));
        if self.header_parsed && self.raw.len() > 0 {
            if let Some(header) = self.header {
                let n = self.raw.len();
                let end = match self.expected_length {
                    Some(e) => if e < n {
                        e
                    } else {
                        n
                    },
                    None => n,
                };
                let payload = copy_range(self.raw.as_slice(), header.header_size, end);
                outputs.push(PesOutput { header, payload });
                assert(outputs@.map_values(|o: PesOutput| out_view(o)) =~= before + pes_flush(
                    old(self).state(),
                ));
            }
        } else {
            assert(outputs@.map_values(|o: PesOutput| out_view(o)) =~= before + pes_flush(
                old(self).state(),
            ));
        }
        self.reset();
    }

    fn try_complete_into(&mut self, outputs: &mut Vec<PesOutput>) -> (r: Result<(), TsError>)
        requires
            pes_state_wf(old(self).state()) || (!old(self).header_parsed && old(self).expected_length
                is None && old(self).header is None),
        ensures
            final(self).wf(),
            match pes_try_complete(old(self).state()) {
                Ok((s2, outs)) => r is Ok && final(self).state() == s2 && final(outputs)@.map_values(
                    |o: PesOutput| out_view(o),
                ) == old(outputs)@.map_values(|o: PesOutput| out_view(o)) + outs,
                Err(e) => r == Err::<(), TsError>(e),
            },
    {
        let ghost before = outputs@.map_values(|o: PesOutput| out_view(o));
        if !self.header_parsed {
            if self.raw.len() < 9 {
                assert(before + Seq::<(PesHeader, Seq<u8>)>::empty() =~= before);
                return Ok(());
            }
            let header = parse_pes_header(self.raw.as_slice())?;
            let pl = header.packet_length as usize;
            if pl != 0 && pl + 6 < header.header_size {
                self.reset();
                return Err(
                    TsError::invalid_input(2105, Some("PES packet length shorter than header")),
                );
            }
            if pl != 0 && self.raw.len() >= pl + 6 {
                let expected = pl + 6;
                let payload = copy_range(self.raw.as_slice(), header.header_size, expected);
                outputs.push(PesOutput { header, payload });
                assert(outputs@.map_values(|o: PesOutput| out_view(o)) =~= before + seq![
                    (header, old(self).state().raw.subrange(header.header_size as int, expected as int)),
                ]);
                self.reset();
                return Ok(());
            }
            self.header = Some(header);
            self.header_parsed = true;
            if pl != 0 {
                self.expected_length = Some(pl + 6);
            }
            assert(before + Seq::<(PesHeader, Seq<u8>)>::empty() =~= before);
            return Ok(());
        }
        if let Some(expected) = self.expected_length {
            if self.raw.len() >= expected {
                let header = match self.header {
                    Some(h) => h,
                    None => {
                        return Err(
                            TsError::invalid_input(2106, Some("PES header missing after parse")),
                        );
                    },
                };
                let payload = copy_range(self.raw.as_slice(), header.header_size, expected);
                outputs.push(PesOutput { header, payload });
                assert(outputs@.map_values(|o: PesOutput| out_view(o)) =~= before + seq![
                    (header, old(self).state().raw.subrange(header.header_size as int, expected as int)),
                ]);
                self.reset();
                return Ok(());
            }
        }
        assert(before + Seq::<(PesHeader, Seq<u8>)>::empty() =~= before);
        Ok(())
    }

    /// Feed payload bytes. `payload_unit_start` true means this is the beginning of a PES packet.
    ///
    /// Returns all PES packets completed by this feed.
    pub fn feed(&mut self, payload: &[u8], payload_unit_start: bool) -> (r: Result<
        Vec<PesOutput>,
        TsError,
    >)
        requires
            old(self).wf(),
        ensures
            final(self).wf(),
            match pes_feed(old(self).state(), payload@, payload_unit_start) {
                Ok((s2, outs)) => r matches Ok(v) && final(self).state() == s2 && v@.map_values(
                    |o: PesOutput| out_view(o),
                ) == outs,
                Err(e) => r == Err::<Vec<PesOutput>, TsError>(e),
            },
    {
        let mut outputs: Vec<PesOutput> = Vec::new();
        let ghost empty = outputs@.map_values(|o: PesOutput| out_view(o));
        assert(empty =~= Seq::<(PesHeader, Seq<u8>)>::empty());
        if payload_unit_start {
            self.flush_into(&mut outputs);
            if payload.len() < 3 || payload[0] != 0x00 || payload[1] != 0x00 || payload[2] != 0x01 {
                if payload.len() < 3 {
                    append(&mut self.raw, payload);
                    return Ok(outputs);
                }
                return Err(TsError::invalid_input(2101, Some("PES missing start code")));
            }
            append(&mut self.raw, payload);
            self.try_complete_into(&mut outputs)?;
            return Ok(outputs);
        }
        if self.raw.len() == 0 && !self.header_parsed {
            return Ok(outputs);
        }
        if payload.len() > MAX_PES_SIZE || self.raw.len() > MAX_PES_SIZE - payload.len() {
            self.reset();
            return Err(TsError::LimitExceeded { limit: "pes buffer" });
        }
        append(&mut self.raw, payload);
        self.try_complete_into(&mut outputs)?;
        assert(Seq::<(PesHeader, Seq<u8>)>::empty() + outputs@.map_values(|o: PesOutput| out_view(o))
            =~= outputs@.map_values(|o: PesOutput| out_view(o)));
        Ok(outputs)
    }
}


/// The five bytes that carry the 33-bit timestamp `t` in a PES header, after
/// the 4-bit `prefix`: `prefix`, bits 32..30, a marker bit; bits 29..15 and a
/// marker bit; bits 14..0 and a marker bit.
pub open spec fn timestamp_bytes(prefix: u8, t: u64) -> Seq<u8> {
    seq![
        (prefix as int * 16 + (t as int / 0x4000_0000) % 8 * 2 + 1) as u8,
        ((t as int / 0x40_0000) % 256) as u8,
        ((t as int / 0x8000) % 128 * 2 + 1) as u8,
        ((t as int / 0x80) % 256) as u8,
        (t as int % 128 * 2 + 1) as u8,
    ]
}

/// A timestamp reads back as written: every 33-bit value `t`, written in the
/// five-byte PES form at any position, is read as `t`, all 33 bits of it.
pub proof fn lemma_timestamp_round_trip(prefix: u8, t: u64, b: Seq<u8>, i: int)
    requires
        prefix < 16,
        t < 0x2_0000_0000,
        0 <= i,
        i + 5 <= b.len(),
        b.subrange(i, i + 5) == timestamp_bytes(prefix, t),
    ensures
        pes_timestamp_spec(b, i) == t,
{
    let e = timestamp_bytes(prefix, t);
    assert(b[i] == e[0] && b[i + 1] == e[1] && b[i + 2] == e[2] && b[i + 3] == e[3] && b[i + 4] == e[4]) by {
        assert(b.subrange(i, i + 5)[0] == b[i]);
        assert(b.subrange(i, i + 5)[1] == b[i + 1]);
        assert(b.subrange(i, i + 5)[2] == b[i + 2]);
        assert(b.subrange(i, i + 5)[3] == b[i + 3]);
        assert(b.subrange(i, i + 5)[4] == b[i + 4]);
    }
    let b0 = b[i] as u64;
    let b1 = b[i + 1] as u64;
    let b2 = b[i + 2] as u64;
    let b3 = b[i + 3] as u64;
    let b4 = b[i + 4] as u64;
    let p = prefix as u64;
    assert(b0 == p * 16 + (t / 0x4000_0000) % 8 * 2 + 1);
    assert(b1 == (t / 0x40_0000) % 256);
    assert(b2 == (t / 0x8000) % 128 * 2 + 1);
    assert(b3 == (t / 0x80) % 256);
    assert(b4 == t % 128 * 2 + 1);
    assert((b0 / 2) % 8 * 0x4000_0000 + (b1 * 256 + b2) / 2 * 0x8000 + (b3 * 256 + b4) / 2 == t)
        by (bit_vector)
        requires
            p < 16,
            t < 0x2_0000_0000,
            b0 == p * 16 + (t / 0x4000_0000) % 8 * 2 + 1,
            b1 == (t / 0x40_0000) % 256,
            b2 == (t / 0x8000) % 128 * 2 + 1,
            b3 == (t / 0x80) % 256,
            b4 == t % 128 * 2 + 1,
    ;
}

/// The timestamp read from any five bytes lies in the 33-bit range.
pub proof fn lemma_timestamp_range(b: Seq<u8>, i: int)
    requires
        0 <= i,
        i + 5 <= b.len(),
    ensures
        0 <= pes_timestamp_spec(b, i) < 0x2_0000_0000,
{
    let b0 = b[i] as u64;
    let b1 = b[i + 1] as u64;
    let b2 = b[i + 2] as u64;
    let b3 = b[i + 3] as u64;
    let b4 = b[i + 4] as u64;
    assert((b0 / 2) % 8 * 0x4000_0000 + (b1 * 256 + b2) / 2 * 0x8000 + (b3 * 256 + b4) / 2
        < 0x2_0000_0000) by (bit_vector)
        requires
            b0 < 256,
            b1 < 256,
            b2 < 256,
            b3 < 256,
            b4 < 256,
    ;
}

} // verus!
