//! The decisions of a bounded FLV recorder: which tracks it takes, and when
//! the bytes its muxer has produced are due for the writer. The writer itself
//! is the caller's: each step hands back the bytes to write.

use vstd::prelude::*;

use crate::flv::error::FlvError;
use crate::flv::muxer::{
    ensure_track_spec, finish_spec, model_fits, push_spec, track_fits, write_times, FlvMuxModel,
    FlvMuxer,
};
use crate::media::{CodecConfig, MediaPacket, PacketView, TrackInfo, TrackView};

verus! {

/// Recorder state returned by [`FlvRecorderCore::cancel`].
#[derive(Debug, Clone, PartialEq, Eq)]
pub struct FlvRecordingCancel {
    /// FLV bytes that had been produced but not yet flushed to the writer.
    pub partial_output: Vec<u8>,
    /// Number of packets still held in the reorder queue when cancel occurred.
    pub unflushed_packets: usize,
}

/// What a recorder holds: its muxer, the tracks registered, in order, and
/// the output size at which bytes are handed to the writer.
pub struct RecorderModel {
    pub muxer: FlvMuxModel,
    pub tracks: Seq<TrackView>,
    pub flush_threshold: nat,
}

/// The first registered track with id `id`.
pub open spec fn known_track(ts: Seq<TrackView>, id: u32) -> Option<TrackView>
    decreases ts.len(),
{
    if ts.len() == 0 {
        None
    } else if ts[0].id == id {
        Some(ts[0])
    } else {
        known_track(ts.drop_first(), id)
    }
}

/// Register track `t`: refused when a track with its id but another codec or
/// configuration is registered; remembered if its id is new; refused when its
/// configuration does not fit a tag; else handed to the muxer.
pub open spec fn add_track_spec(m: RecorderModel, t: TrackView) -> (RecorderModel, Result<(), FlvError>) {
    let known = known_track(m.tracks, t.id);
    if known matches Some(e) && (e.codec != t.codec || e.codec_config != t.codec_config) {
        (m, Err(FlvError::UnsupportedCodec))
    } else {
        let m1 = RecorderModel {
            tracks: if known is None {
                m.tracks.push(t)
            } else {
                m.tracks
            },
            ..m
        };
        if !track_fits(t) {
            (m1, Err(FlvError::LimitExceeded))
        } else {
            (RecorderModel { muxer: ensure_track_spec(m.muxer, t), ..m1 }, Ok(()))
        }
    }
}

/// Take the muxer's output once it has reached the threshold: the bytes to
/// write, if there are any.
pub open spec fn due_spec(m: RecorderModel) -> (RecorderModel, Option<Seq<u8>>) {
    if m.muxer.output.len() >= m.flush_threshold {
        flush_spec(m)
    } else {
        (m, None)
    }
}

/// Take the muxer's output: the bytes to write, if there are any.
pub open spec fn flush_spec(m: RecorderModel) -> (RecorderModel, Option<Seq<u8>>) {
    (
        RecorderModel { muxer: FlvMuxModel { output: Seq::empty(), ..m.muxer }, ..m },
        if m.muxer.output.len() > 0 {
            Some(m.muxer.output)
        } else {
            None
        },
    )
}

/// Queue packet `p` of track `t`: refused for a track never registered, or
/// one whose configuration or the packet does not fit a tag; else the muxer
/// takes it, and the output is handed out once it reaches the threshold.
pub open spec fn record_spec(m: RecorderModel, p: PacketView, t: TrackView) -> (
    RecorderModel,
    Result<Option<Seq<u8>>, FlvError>,
) {
    if known_track(m.tracks, t.id) is None {
        (m, Err(FlvError::UnsupportedCodec))
    } else if !track_fits(t) || p.payload.len() + 16 > u32::MAX {
        (m, Err(FlvError::LimitExceeded))
    } else {
        let (mm, r) = push_spec(m.muxer, p, t);
        match r {
            Err(e) => (RecorderModel { muxer: mm, ..m }, Err(e)),
            Ok(_) => {
                let (m2, chunk) = due_spec(RecorderModel { muxer: mm, ..m });
                (m2, Ok(chunk))
            },
        }
    }
}

/// A bounded FLV recorder without its writer: the muxer keeps a bounded
/// reorder queue, and each step returns the bytes due for the writer.
pub struct FlvRecorderCore {
    muxer: FlvMuxer,
    tracks: Vec<TrackInfo>,
    flush_threshold: usize,
}

impl FlvRecorderCore {
    /// What the recorder holds.
    pub closed spec fn model(&self) -> RecorderModel {
        RecorderModel {
            muxer: self.muxer.model(),
            tracks: self.tracks@.map_values(|t: TrackInfo| t@),
            flush_threshold: self.flush_threshold as nat,
        }
    }

    /// Whether the muxer's queued packets and tracks fit its tags.
    pub closed spec fn wf(&self) -> bool {
        model_fits(self.muxer.model())
    }

    /// A recorder writing file-mode or stream-mode FLV.
    pub fn new(file_mode: bool, max_queue_depth: usize, flush_threshold: usize) -> (r: Self)
        ensures
            r.wf(),
            r.model().muxer == (FlvMuxModel {
                file_mode,
                max_queue_depth: max_queue_depth as nat,
                output: Seq::empty(),
                audio: None,
                video: None,
                audio_config_emitted: false,
                video_config_emitted: false,
                queue: Seq::empty(),
                header_written: false,
                previous_tag_size: 0,
            }),
            r.model().tracks == Seq::<TrackView>::empty(),
            r.model().flush_threshold == flush_threshold,
    {
        let r = FlvRecorderCore {
            muxer: FlvMuxer::new(file_mode, max_queue_depth),
            tracks: Vec::new(),
            flush_threshold,
        };
        assert(r.model().tracks =~= Seq::<TrackView>::empty());
        r
    }

    fn find(&self, id: u32) -> (r: Option<usize>)
        ensures
            match known_track(self.model().tracks, id) {
                None => r is None,
                Some(t) => r matches Some(i) && i < self.tracks@.len() && self.tracks@[i as int]@
                    == t,
            },
    {
        let ghost ts = self.tracks@.map_values(|t: TrackInfo| t@);
        let mut i: usize = 0;
        assert(ts.subrange(0, ts.len() as int) =~= ts);
        while i < self.tracks.len()
            invariant
                i <= self.tracks@.len(),
                ts == self.tracks@.map_values(|t: TrackInfo| t@),
                known_track(ts, id) == known_track(ts.subrange(i as int, ts.len() as int), id),
            decreases self.tracks@.len() - i,
        {
            let ghost rest = ts.subrange(i as int, ts.len() as int);
            assert(rest.drop_first() =~= ts.subrange(i + 1, ts.len() as int));
            if self.tracks[i].id == id {
                return Some(i);
            }
            i += 1;
        }
        None
    }

    /// Register a track; see [`add_track_spec`].
    pub fn add_track(&mut self, track: &TrackInfo) -> (r: Result<(), FlvError>)
        requires
            old(self).wf(),
        ensures
            final(self).wf(),
            (final(self).model(), r) == add_track_spec(old(self).model(), track@),
    {
        let ghost m0 = self.model();
        let ghost known = known_track(m0.tracks, track.id);
        let found = self.find(track.id);
        match found {
            Some(i) => {
                let same = self.tracks[i].codec == track.codec && same_config(
                    &self.tracks[i].codec_config,
                    &track.codec_config,
                );
                if !same {
                    return Err(FlvError::UnsupportedCodec);
                }
            },
            None => {
                let ghost before = self.tracks@;
                self.tracks.push(track.copy());
                assert(self.tracks@.map_values(|t: TrackInfo| t@) =~= before.map_values(
                    |t: TrackInfo| t@,
                ).push(track@));
            },
        }
        assert(self.model().tracks == add_track_spec(m0, track@).0.tracks);
        if !fits_tag(track) {
            return Err(FlvError::LimitExceeded);
        }
        self.muxer.add_track(track)?;
        assert(self.model() == add_track_spec(m0, track@).0);
        Ok(())
    }

    /// Queue a packet; see [`record_spec`]. The bytes returned are due for the writer.
    pub fn push_packet(&mut self, packet: MediaPacket, track: &TrackInfo) -> (r: Result<
        Option<Vec<u8>>,
        FlvError,
    >)
        requires
            old(self).wf(),
            i64::MIN <= write_times(packet@).1 - write_times(packet@).0 <= i64::MAX,
        ensures
            final(self).wf(),
            ({
                let (m, s) = record_spec(old(self).model(), packet@, track@);
                &&& final(self).model() == m
                &&& match s {
                    Ok(Some(b)) => r matches Ok(Some(v)) && v@ == b,
                    Ok(None) => r matches Ok(None),
                    Err(e) => r == Err::<Option<Vec<u8>>, FlvError>(e),
                }
            }),
    {
        if self.find(track.id).is_none() {
            return Err(FlvError::UnsupportedCodec);
        }
        if !fits_tag(track) || packet.payload.len() > 0xffff_ffef {
            return Err(FlvError::LimitExceeded);
        }
        self.muxer.push_packet(packet, track)?;
        if self.muxer.output().len() >= self.flush_threshold {
            Ok(self.flush())
        } else {
            Ok(None)
        }
    }

    /// Take the bytes produced so far, if there are any; see [`flush_spec`].
    pub fn flush(&mut self) -> (r: Option<Vec<u8>>)
        requires
            old(self).wf(),
        ensures
            final(self).wf(),
            final(self).model() == flush_spec(old(self).model()).0,
            match flush_spec(old(self).model()).1 {
                Some(b) => r matches Some(v) && v@ == b,
                None => r is None,
            },
    {
        let chunk = self.muxer.take_output();
        if chunk.len() > 0 {
            Some(chunk)
        } else {
            None
        }
    }

    /// Finish the recording: the bytes not yet taken, then the muxer's
    /// remaining queue and trailer; see [`finish_spec`].
    pub fn stop(self) -> (r: (Option<Vec<u8>>, Result<Vec<u8>, FlvError>))
        requires
            self.wf(),
        ensures
            match flush_spec(self.model()).1 {
                Some(b) => r.0 matches Some(v) && v@ == b,
                None => r.0 is None,
            },
            match finish_spec(flush_spec(self.model()).0.muxer) {
                Ok(b) => r.1 matches Ok(v) && v@ == b,
                Err(e) => r.1 == Err::<Vec<u8>, FlvError>(e),
            },
    {
        let mut s = self;
        let first = s.flush();
        let rest = s.muxer.finish();
        (first, rest)
    }

    /// Cancel the recording without writing the reorder queue or trailer.
    pub fn cancel(self) -> (r: FlvRecordingCancel)
        ensures
            r.partial_output@ == self.model().muxer.output,
            r.unflushed_packets == self.model().muxer.queue.len(),
    {
        let mut s = self;
        let unflushed = s.muxer.pending_packet_count();
        FlvRecordingCancel { partial_output: s.muxer.take_output(), unflushed_packets: unflushed }
    }
}

/// Whether the two configurations are the same.
fn same_config(a: &CodecConfig, b: &CodecConfig) -> (r: bool)
    ensures
        r == (a@ == b@),
{
    match (a, b) {
        (CodecConfig::Unset, CodecConfig::Unset) => true,
        (CodecConfig::AvcC(x), CodecConfig::AvcC(y)) => same_bytes(x, y),
        (CodecConfig::HevcC(x), CodecConfig::HevcC(y)) => same_bytes(x, y),
        (CodecConfig::AacAudioSpecificConfig(x), CodecConfig::AacAudioSpecificConfig(y)) => {
            same_bytes(x, y)
        },
        _ => false,
    }
}

fn same_bytes(x: &Vec<u8>, y: &Vec<u8>) -> (r: bool)
    ensures
        r == (x@ == y@),
{
    if x.len() != y.len() {
        return false;
    }
    let mut i: usize = 0;
    while i < x.len()
        invariant
            x@.len() == y@.len(),
            i <= x@.len(),
            forall|j: int| 0 <= j < i ==> x@[j] == y@[j],
        decreases x@.len() - i,
    {
        if x[i] != y[i] {
            return false;
        }
        i += 1;
    }
    assert(x@ =~= y@);
    true
}

/// Whether a track's configuration fits an FLV tag.
fn fits_tag(track: &TrackInfo) -> (r: bool)
    ensures
        r == track_fits(track@),
{
    match track.codec_config.bytes() {
        Some(b) => b.len() <= 0xffff_ffef,
        None => true,
    }
}

} // verus!
