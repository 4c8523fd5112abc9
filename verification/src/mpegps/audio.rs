//! Cutting AAC ADTS frames out of MPEG-PS audio payloads: the bytes carried
//! between payloads, the timestamps stepped frame by frame, and the bound on
//! what is carried. Reading each ADTS header is the caller's: at each point
//! [`AudioFrames::remaining`] shows, it hands back the header's frame length,
//! samples per frame and sampling frequency, or that the bytes are too short
//! or are no ADTS header.

use vstd::prelude::*;

use crate::isobmff::boxes::append;
use crate::media::{MediaPacket, MediaTime, PacketFlags, PacketView, TimeBase};
use crate::mpegps::error::MpegPsError;

verus! {

/// The track id of the audio stream of a program stream.
pub const AUDIO_TRACK_ID: u32 = 2;

/// What an assembler holds: the bytes and time carried over from the last
/// payload, and the pass over the current payload (the bytes, how far they
/// are cut, how many carried bytes lead them, the payload's time, the time
/// of the next frame, whether that time is already the payload's, whether
/// the rest is to be carried, and whether the pass is over).
pub struct AudioModel {
    pub max_buffer_bytes: usize,
    pub sequence: u64,
    pub leftover: Seq<u8>,
    pub leftover_time: Option<MediaTime>,
    pub data: Seq<u8>,
    pub offset: int,
    pub leftover_len: int,
    pub media_time: MediaTime,
    pub pts: Option<i64>,
    pub dts: Option<i64>,
    pub switched: bool,
    pub retain: bool,
    pub done: bool,
}

/// The offset stays within the bytes of the pass.
pub open spec fn audio_wf(m: AudioModel) -> bool {
    0 <= m.offset <= m.data.len() && 0 <= m.leftover_len
}

/// Start a pass over `payload` with time `t`: the carried bytes lead it, and
/// the first frame takes the carried time if there is one.
pub open spec fn begin_spec(m: AudioModel, payload: Seq<u8>, t: MediaTime) -> AudioModel {
    AudioModel {
        leftover: Seq::empty(),
        leftover_time: None,
        data: m.leftover + payload,
        offset: 0,
        leftover_len: m.leftover.len() as int,
        media_time: t,
        pts: match m.leftover_time {
            Some(lt) => lt.pts,
            None => t.pts,
        },
        dts: match m.leftover_time {
            Some(lt) => lt.dts,
            None => t.dts,
        },
        switched: m.leftover_time is None,
        retain: false,
        done: false,
        ..m
    }
}

/// Once the carried bytes are cut, frames take the payload's time.
pub open spec fn switch_spec(m: AudioModel) -> AudioModel {
    if !m.switched && m.offset >= m.leftover_len {
        AudioModel { pts: m.media_time.pts, dts: m.media_time.dts, switched: true, ..m }
    } else {
        m
    }
}

/// `t + d`, staying within `i64`.
pub open spec fn sat_add_i64(t: i64, d: i64) -> i64 {
    if t + d > i64::MAX {
        i64::MAX
    } else if t + d < i64::MIN {
        i64::MIN
    } else {
        (t + d) as i64
    }
}

/// The duration of a frame in 90 kHz ticks.
pub open spec fn frame_ticks(samples_per_frame: u32, sampling_frequency: u32) -> i64 {
    (samples_per_frame as int * 90_000 / sampling_frequency as int) as i64
}

/// A frame of `frame_length` bytes at the offset: when the rest is shorter
/// (or the length is 0), the rest is to be carried and the pass ends; else
/// the frame becomes a keyframe packet with the current time and its
/// duration, the sequence number moves on, and so do the offset and time.
pub open spec fn frame_spec(
    m0: AudioModel,
    frame_length: usize,
    samples_per_frame: u32,
    sampling_frequency: u32,
) -> (AudioModel, Option<PacketView>) {
    let m = switch_spec(m0);
    if frame_length == 0 || m.data.len() - m.offset < frame_length {
        (AudioModel { retain: true, done: true, ..m }, None)
    } else {
        let d = frame_ticks(samples_per_frame, sampling_frequency);
        let p = PacketView {
            payload: m.data.subrange(m.offset, m.offset + frame_length),
            track_id: AUDIO_TRACK_ID,
            stream_epoch: 0,
            sequence: m.sequence,
            time: MediaTime {
                pts: m.pts,
                dts: m.dts,
                duration: Some(d),
                timebase: TimeBase { num: 1, den: 90_000 },
            },
            flags: PacketFlags { is_keyframe: true, is_corrupt: false, is_discontinuity: false },
        };
        (
            AudioModel {
                sequence: if m.sequence == u64::MAX {
                    0
                } else {
                    (m.sequence + 1) as u64
                },
                offset: m.offset + frame_length,
                pts: match m.pts {
                    Some(t) => Some(sat_add_i64(t, d)),
                    None => None,
                },
                dts: match m.dts {
                    Some(t) => Some(sat_add_i64(t, d)),
                    None => None,
                },
                done: m.offset + frame_length >= m.data.len(),
                ..m
            },
            Some(p),
        )
    }
}

/// End the pass: a rest to be carried is kept with the time of the next
/// frame, unless it exceeds the bound, which drops it and fails.
pub open spec fn end_spec(m: AudioModel) -> (AudioModel, Result<(), MpegPsError>) {
    let m1 = AudioModel { done: true, data: Seq::empty(), offset: 0, ..m };
    if m.retain && m.offset < m.data.len() {
        let rest = m.data.len() - m.offset;
        if rest > m.max_buffer_bytes {
            (
                AudioModel { leftover: Seq::empty(), leftover_time: None, ..m1 },
                Err(MpegPsError::BufferExceeded { max: m.max_buffer_bytes }),
            )
        } else {
            (
                AudioModel {
                    leftover: m.data.subrange(m.offset, m.data.len() as int),
                    leftover_time: Some(
                        MediaTime {
                            pts: m.pts,
                            dts: m.dts,
                            duration: None,
                            timebase: m.media_time.timebase,
                        },
                    ),
                    ..m1
                },
                Ok(()),
            )
        }
    } else {
        (m1, Ok(()))
    }
}

/// Cuts AAC ADTS frames out of audio payloads.
pub struct AudioFrames {
    max_buffer_bytes: usize,
    sequence: u64,
    leftover: Vec<u8>,
    leftover_time: Option<MediaTime>,
    data: Vec<u8>,
    offset: usize,
    leftover_len: usize,
    media_time: MediaTime,
    pts: Option<i64>,
    dts: Option<i64>,
    switched: bool,
    retain: bool,
    done: bool,
}

impl View for AudioFrames {
    type V = AudioModel;

    closed spec fn view(&self) -> AudioModel {
        AudioModel {
            max_buffer_bytes: self.max_buffer_bytes,
            sequence: self.sequence,
            leftover: self.leftover@,
            leftover_time: self.leftover_time,
            data: self.data@,
            offset: self.offset as int,
            leftover_len: self.leftover_len as int,
            media_time: self.media_time,
            pts: self.pts,
            dts: self.dts,
            switched: self.switched,
            retain: self.retain,
            done: self.done,
        }
    }
}

fn sat_add_i64_exec(t: i64, d: i64) -> (r: i64)
    ensures
        r == sat_add_i64(t, d),
{
    let s = t as i128 + d as i128;
    if s > 0x7fff_ffff_ffff_ffff {
        0x7fff_ffff_ffff_ffff
    } else if s < -0x8000_0000_0000_0000 {
        -0x8000_0000_0000_0000
    } else {
        s as i64
    }
}

impl AudioFrames {
    /// An assembler carrying at most `max_buffer_bytes` between payloads.
    pub fn new(max_buffer_bytes: usize) -> (a: Self)
        ensures
            audio_wf(a@),
            a@.max_buffer_bytes == max_buffer_bytes,
            a@.sequence == 0,
            a@.leftover == Seq::<u8>::empty(),
            a@.leftover_time is None,
            a@.done,
    {
        let t = MediaTime { pts: None, dts: None, duration: None, timebase: TimeBase { num: 1, den: 90_000 } };
        let a = AudioFrames {
            max_buffer_bytes,
            sequence: 0,
            leftover: Vec::new(),
            leftover_time: None,
            data: Vec::new(),
            offset: 0,
            leftover_len: 0,
            media_time: t,
            pts: None,
            dts: None,
            switched: true,
            retain: false,
            done: true,
        };
        assert(a@.leftover =~= Seq::<u8>::empty());
        a
    }

    /// Forget everything: no carried bytes, sequence numbers from 0.
    pub fn reset(&mut self)
        ensures
            audio_wf(final(self)@),
            final(self)@.max_buffer_bytes == old(self)@.max_buffer_bytes,
            final(self)@.sequence == 0,
            final(self)@.leftover == Seq::<u8>::empty(),
            final(self)@.leftover_time is None,
            final(self)@.done,
    {
        let max = self.max_buffer_bytes;
        *self = AudioFrames::new(max);
    }

    /// Start cutting `payload`, whose PES time is `media_time`; see [`begin_spec`].
    pub fn begin(&mut self, payload: &[u8], media_time: MediaTime)
        requires
            audio_wf(old(self)@),
        ensures
            audio_wf(final(self)@),
            final(self)@ == begin_spec(old(self)@, payload@, media_time),
    {
        let mut data: Vec<u8> = Vec::new();
        core::mem::swap(&mut data, &mut self.leftover);
        let leftover_len = data.len();
        append(&mut data, payload);
        let lt = self.leftover_time;
        self.leftover_time = None;
        self.data = data;
        self.offset = 0;
        self.leftover_len = leftover_len;
        self.media_time = media_time;
        match lt {
            Some(t) => {
                self.pts = t.pts;
                self.dts = t.dts;
                self.switched = false;
            },
            None => {
                self.pts = media_time.pts;
                self.dts = media_time.dts;
                self.switched = true;
            },
        }
        self.retain = false;
        self.done = false;
        assert(self@.leftover =~= Seq::<u8>::empty());
    }

    /// The bytes where the next ADTS header is to be read, while the pass
    /// goes on and bytes are left.
    pub fn remaining(&self) -> (r: Option<&[u8]>)
        requires
            audio_wf(self@),
        ensures
            !self@.done && self@.offset < self@.data.len() ==> (r matches Some(s) && s@
                == self@.data.subrange(self@.offset, self@.data.len() as int)),
            !(!self@.done && self@.offset < self@.data.len()) ==> r is None,
    {
        if !self.done && self.offset < self.data.len() {
            Some(slice_from(self.data.as_slice(), self.offset))
        } else {
            None
        }
    }

    /// The ADTS header at the offset gives a frame of `frame_length` bytes
    /// with `samples_per_frame` samples at `sampling_frequency` Hz; see
    /// [`frame_spec`]. The packet returned, if any, is the frame.
    pub fn frame(&mut self, frame_length: usize, samples_per_frame: u32, sampling_frequency: u32) -> (r:
        Option<MediaPacket>)
        requires
            audio_wf(old(self)@),
            sampling_frequency != 0,
        ensures
            audio_wf(final(self)@),
            ({
                let (m, p) = frame_spec(old(self)@, frame_length, samples_per_frame, sampling_frequency);
                &&& final(self)@ == m
                &&& match p {
                    Some(v) => r matches Some(x) && x@ == v,
                    None => r is None,
                }
            }),
    {
        if !self.switched && self.offset >= self.leftover_len {
            self.pts = self.media_time.pts;
            self.dts = self.media_time.dts;
            self.switched = true;
        }
        if frame_length == 0 || self.data.len() - self.offset < frame_length {
            self.retain = true;
            self.done = true;
            return None;
        }
        let ticks: u64 = samples_per_frame as u64 * 90_000 / sampling_frequency as u64;
        let d: i64 = ticks as i64;
        let end = self.offset + frame_length;
        let payload = copy_range(self.data.as_slice(), self.offset, end);
        let packet = MediaPacket {
            payload,
            track_id: AUDIO_TRACK_ID,
            stream_epoch: 0,
            sequence: self.sequence,
            time: MediaTime {
                pts: self.pts,
                dts: self.dts,
                duration: Some(d),
                timebase: TimeBase { num: 1, den: 90_000 },
            },
            flags: PacketFlags { is_keyframe: true, is_corrupt: false, is_discontinuity: false },
        };
        self.sequence = self.sequence.wrapping_add(1);
        self.offset = end;
        self.pts = match self.pts {
            Some(t) => Some(sat_add_i64_exec(t, d)),
            None => None,
        };
        self.dts = match self.dts {
            Some(t) => Some(sat_add_i64_exec(t, d)),
            None => None,
        };
        self.done = end >= self.data.len();
        Some(packet)
    }

    /// The bytes at the offset are too short for an ADTS header: the rest is
    /// to be carried, and the pass ends.
    pub fn too_short(&mut self)
        requires
            audio_wf(old(self)@),
        ensures
            audio_wf(final(self)@),
            final(self)@ == (AudioModel { retain: true, done: true, ..switch_spec(old(self)@) }),
    {
        if !self.switched && self.offset >= self.leftover_len {
            self.pts = self.media_time.pts;
            self.dts = self.media_time.dts;
            self.switched = true;
        }
        self.retain = true;
        self.done = true;
    }

    /// The bytes at the offset are no ADTS header: the rest of the payload
    /// is dropped, and the pass ends.
    pub fn not_adts(&mut self)
        requires
            audio_wf(old(self)@),
        ensures
            audio_wf(final(self)@),
            final(self)@ == (AudioModel {
                offset: switch_spec(old(self)@).data.len() as int,
                done: true,
                ..switch_spec(old(self)@)
            }),
    {
        if !self.switched && self.offset >= self.leftover_len {
            self.pts = self.media_time.pts;
            self.dts = self.media_time.dts;
            self.switched = true;
        }
        self.offset = self.data.len();
        self.done = true;
    }

    /// End the pass; see [`end_spec`].
    pub fn end(&mut self) -> (r: Result<(), MpegPsError>)
        requires
            audio_wf(old(self)@),
        ensures
            audio_wf(final(self)@),
            (final(self)@, r) == end_spec(old(self)@),
    {
        let mut data: Vec<u8> = Vec::new();
        core::mem::swap(&mut data, &mut self.data);
        let offset = self.offset;
        self.offset = 0;
        self.done = true;
        assert(self@.data =~= Seq::<u8>::empty());
        if self.retain && offset < data.len() {
            let rest = data.len() - offset;
            if rest > self.max_buffer_bytes {
                self.leftover = Vec::new();
                self.leftover_time = None;
                assert(self@.leftover =~= Seq::<u8>::empty());
                return Err(MpegPsError::BufferExceeded { max: self.max_buffer_bytes });
            }
            self.leftover = copy_range(data.as_slice(), offset, data.len());
            self.leftover_time = Some(
                MediaTime {
                    pts: self.pts,
                    dts: self.dts,
                    duration: None,
                    timebase: self.media_time.timebase,
                },
            );
        }
        Ok(())
    }
}

fn slice_from(s: &[u8], from: usize) -> (r: &[u8])
    requires
        from <= s@.len(),
    ensures
        r@ == s@.subrange(from as int, s@.len() as int),
{
    let n = s.len();
    vstd::slice::slice_subrange(s, from, n)
}

fn copy_range(s: &[u8], from: usize, to: usize) -> (r: Vec<u8>)
    requires
        from <= to <= s@.len(),
    ensures
        r@ == s@.subrange(from as int, to as int),
{
    let mut out: Vec<u8> = Vec::new();
    let mut i = from;
    while i < to
        invariant
            from <= i <= to <= s@.len(),
            out@ == s@.subrange(from as int, i as int),
        decreases to - i,
    {
        out.push(s[i]);
        i += 1;
        assert(out@ =~= s@.subrange(from as int, i as int));
    }
    out
}

} // verus!
