//! The fragment stage of the incremental ISOBMFF / fMP4 demuxer: tracks
//! declared by the movie header, fragments waiting for their `mdat`, and the
//! events handed out, with discontinuity detection across fragments.

use vstd::prelude::*;

use std::collections::VecDeque;

use crate::isobmff::error::Mp4Error;
use crate::isobmff::fragment::{emit_packets, emit_spec, packets_view, TrackFragment, TrackFragmentSpec};
use crate::isobmff::moov::TrackData;
use crate::media::{MediaPacket, PacketFlags, PacketView};

verus! {

/// Events emitted by the demuxer.
#[derive(Debug)]
pub enum Mp4Event {
    /// A track declared by the movie header.
    Track(TrackData),
    /// A compressed sample from a media fragment.
    Packet(MediaPacket),
    /// A stream discontinuity for a track.
    Discontinuity { track_id: u32 },
}

/// What an [`Mp4Event`] holds.
pub enum EventView {
    Track(TrackData),
    Packet(PacketView),
    Discontinuity { track_id: u32 },
}

impl View for Mp4Event {
    type V = EventView;

    open spec fn view(&self) -> EventView {
        match self {
            Mp4Event::Track(t) => EventView::Track(*t),
            Mp4Event::Packet(p) => EventView::Packet(p@),
            Mp4Event::Discontinuity { track_id } => EventView::Discontinuity { track_id: *track_id },
        }
    }
}

/// What a demuxer holds: its tracks, the fragments waiting for their media
/// data, the events not yet handed out, the stream epoch, the next packet
/// sequence number, the last decode time seen per track, and whether a
/// movie header was seen.
pub struct DemuxModel {
    pub tracks: Seq<TrackData>,
    pub pending_fragments: Seq<TrackFragmentSpec>,
    pub events: Seq<EventView>,
    pub epoch: u64,
    pub sequence: u64,
    pub last_dts: Seq<(u32, u64)>,
    pub moov_seen: bool,
}

/// The first track with id `id`.
pub open spec fn find_track(tracks: Seq<TrackData>, id: u32) -> Option<TrackData>
    decreases tracks.len(),
{
    if tracks.len() == 0 {
        None
    } else if tracks[0].track_id == id {
        Some(tracks[0])
    } else {
        find_track(tracks.drop_first(), id)
    }
}

/// The last decode time recorded for track `id`.
pub open spec fn dts_of(m: Seq<(u32, u64)>, id: u32) -> Option<u64>
    decreases m.len(),
{
    if m.len() == 0 {
        None
    } else if m[0].0 == id {
        Some(m[0].1)
    } else {
        dts_of(m.drop_first(), id)
    }
}

/// `m` with the decode time of track `id` set to `v`.
pub open spec fn dts_set(m: Seq<(u32, u64)>, id: u32, v: u64) -> Seq<(u32, u64)>
    decreases m.len(),
{
    if m.len() == 0 {
        seq![(id, v)]
    } else if m[0].0 == id {
        m.update(0, (id, v))
    } else {
        seq![m[0]] + dts_set(m.drop_first(), id, v)
    }
}

/// The sum of the sample durations.
pub open spec fn duration_sum(samples: Seq<crate::isobmff::fragment::FragmentSample>) -> int
    decreases samples.len(),
{
    if samples.len() == 0 {
        0
    } else {
        duration_sum(samples.drop_last()) + samples.last().duration
    }
}

/// `a - b`, or 0 below 0.
pub open spec fn sat_sub(a: u64, b: u64) -> u64 {
    if a >= b {
        (a - b) as u64
    } else {
        0
    }
}

/// A fragment starts a discontinuity when its track saw a decode time
/// before and the fragment ends past `u64`, ends before that time, or
/// starts more than 10,000,000 ticks before it.
pub open spec fn is_discontinuity(last_dts: Seq<(u32, u64)>, tf: TrackFragmentSpec) -> bool {
    match dts_of(last_dts, tf.track_id) {
        None => false,
        Some(prev) => {
            let end = tf.base_decode_time + duration_sum(tf.samples);
            end > u64::MAX || end < prev || tf.base_decode_time < sat_sub(prev, 10_000_000)
        },
    }
}

/// The packets of a fragment with the first one marked as a discontinuity
/// when `disc`.
pub open spec fn mark_first(ps: Seq<PacketView>, disc: bool) -> Seq<PacketView> {
    if disc && ps.len() > 0 {
        ps.update(
            0,
            PacketView {
                flags: PacketFlags { is_discontinuity: true, ..ps[0].flags },
                ..ps[0]
            },
        )
    } else {
        ps
    }
}

/// Packets as events.
pub open spec fn packet_events(ps: Seq<PacketView>) -> Seq<EventView> {
    ps.map_values(|p: PacketView| EventView::Packet(p))
}

/// The decode time recorded after a packet: its decode time (every packet cut
/// from a fragment has one), 0 when negative.
pub open spec fn recorded_dts(p: PacketView) -> u64 {
    match p.time.dts {
        Some(d) => if d < 0 {
            0
        } else {
            d as u64
        },
        None => 0,
    }
}

/// Take the samples of one fragment out of `mdat`: fragments of unknown
/// tracks are skipped; a discontinuity bumps the epoch and queues a
/// discontinuity event; the packets are queued, the first marked when there
/// was a discontinuity, and the last one's decode time is recorded. On an
/// error the state reached so far stays.
pub open spec fn fragment_step(m: DemuxModel, tf: TrackFragmentSpec, mdat: Seq<u8>, off: u64) -> (
    DemuxModel,
    Result<(), Mp4Error>,
) {
    match find_track(m.tracks, tf.track_id) {
        None => (m, Ok(())),
        Some(track) => {
            let disc = is_discontinuity(m.last_dts, tf);
            let epoch: u64 = if disc {
                if m.epoch == u64::MAX {
                    u64::MAX
                } else {
                    (m.epoch + 1) as u64
                }
            } else {
                m.epoch
            };
            let events = if disc {
                m.events.push(EventView::Discontinuity { track_id: tf.track_id })
            } else {
                m.events
            };
            let (res, next) = emit_spec(
                tf.samples,
                0,
                mdat,
                off,
                tf.base_decode_time,
                m.sequence,
                track,
                epoch,
            );
            let m1 = DemuxModel { epoch, events, sequence: next, ..m };
            match res {
                Err(e) => (m1, Err(e)),
                Ok(ps) => (
                    DemuxModel {
                        last_dts: if ps.len() > 0 {
                            dts_set(m.last_dts, tf.track_id, recorded_dts(ps.last()))
                        } else {
                            m.last_dts
                        },
                        events: events + packet_events(mark_first(ps, disc)),
                        ..m1
                    },
                    Ok(()),
                ),
            }
        },
    }
}

/// Take fragments `fs` in order, stopping at the first error.
pub open spec fn fragments_step(m: DemuxModel, fs: Seq<TrackFragmentSpec>, mdat: Seq<u8>, off: u64) -> (
    DemuxModel,
    Result<(), Mp4Error>,
)
    decreases fs.len(),
{
    if fs.len() == 0 {
        (m, Ok(()))
    } else {
        let (m1, r) = fragment_step(m, fs[0], mdat, off);
        match r {
            Err(e) => (m1, Err(e)),
            Ok(_) => fragments_step(m1, fs.drop_first(), mdat, off),
        }
    }
}

/// An `mdat` box whose body starts at stream offset `off` meets the pending
/// fragments: they are taken out and their samples emitted in order.
pub open spec fn mdat_step(m: DemuxModel, mdat: Seq<u8>, off: u64) -> (DemuxModel, Result<(), Mp4Error>) {
    fragments_step(DemuxModel { pending_fragments: Seq::empty(), ..m }, m.pending_fragments, mdat, off)
}

/// The number of samples of fragments `fs`.
pub open spec fn sample_total(fs: Seq<TrackFragmentSpec>) -> int
    decreases fs.len(),
{
    if fs.len() == 0 {
        0
    } else {
        fs[0].samples.len() + sample_total(fs.drop_first())
    }
}

/// The views of fragments.
pub open spec fn fragments_view(v: Seq<TrackFragment>) -> Seq<TrackFragmentSpec> {
    v.map_values(|f: TrackFragment| f.view_spec())
}

/// The views of events.
pub open spec fn events_view(v: Seq<Mp4Event>) -> Seq<EventView> {
    v.map_values(|e: Mp4Event| e@)
}

/// Demuxer state for fragmented MP4 after the movie header.
pub struct IsobmffDemuxer {
    tracks: Vec<TrackData>,
    pending_fragments: Vec<TrackFragment>,
    pending_events: VecDeque<Mp4Event>,
    epoch: u64,
    sequence: u64,
    last_dts: Vec<(u32, u64)>,
    moov_seen: bool,
}

impl View for IsobmffDemuxer {
    type V = DemuxModel;

    closed spec fn view(&self) -> DemuxModel {
        DemuxModel {
            tracks: self.tracks@,
            pending_fragments: fragments_view(self.pending_fragments@),
            events: events_view(self.pending_events@),
            epoch: self.epoch,
            sequence: self.sequence,
            last_dts: self.last_dts@,
            moov_seen: self.moov_seen,
        }
    }
}

fn find_track_exec(tracks: &Vec<TrackData>, id: u32) -> (r: Option<TrackData>)
    ensures
        r == find_track(tracks@, id),
{
    let mut i: usize = 0;
    assert(tracks@.subrange(0, tracks@.len() as int) =~= tracks@);
    while i < tracks.len()
        invariant
            i <= tracks@.len(),
            find_track(tracks@, id) == find_track(tracks@.subrange(i as int, tracks@.len() as int), id),
        decreases tracks@.len() - i,
    {
        assert(tracks@.subrange(i as int, tracks@.len() as int).drop_first() =~= tracks@.subrange(
            i + 1,
            tracks@.len() as int,
        ));
        if tracks[i].track_id == id {
            return Some(tracks[i]);
        }
        i += 1;
    }
    None
}

fn dts_of_exec(m: &Vec<(u32, u64)>, id: u32) -> (r: Option<u64>)
    ensures
        r == dts_of(m@, id),
{
    let mut i: usize = 0;
    assert(m@.subrange(0, m@.len() as int) =~= m@);
    while i < m.len()
        invariant
            i <= m@.len(),
            dts_of(m@, id) == dts_of(m@.subrange(i as int, m@.len() as int), id),
        decreases m@.len() - i,
    {
        assert(m@.subrange(i as int, m@.len() as int).drop_first() =~= m@.subrange(
            i + 1,
            m@.len() as int,
        ));
        if m[i].0 == id {
            return Some(m[i].1);
        }
        i += 1;
    }
    None
}

proof fn lemma_dts_set_prefix(m: Seq<(u32, u64)>, i: int, id: u32, v: u64)
    requires
        0 <= i <= m.len(),
        forall|j: int| 0 <= j < i ==> (#[trigger] m[j]).0 != id,
    ensures
        dts_set(m, id, v) == m.subrange(0, i) + dts_set(m.subrange(i, m.len() as int), id, v),
    decreases i,
{
    if i > 0 {
        let t = m.drop_first();
        assert forall|j: int| 0 <= j < i - 1 implies (#[trigger] t[j]).0 != id by {
            assert(t[j] == m[j + 1]);
        }
        lemma_dts_set_prefix(t, i - 1, id, v);
        assert(t.subrange(i - 1, t.len() as int) =~= m.subrange(i, m.len() as int));
        assert(seq![m[0]] + (t.subrange(0, i - 1) + dts_set(m.subrange(i, m.len() as int), id, v))
            =~= m.subrange(0, i) + dts_set(m.subrange(i, m.len() as int), id, v));
    } else {
        assert(m.subrange(0, 0) + dts_set(m, id, v) =~= dts_set(m, id, v));
        assert(m.subrange(0, m.len() as int) =~= m);
    }
}

fn dts_set_exec(m: &mut Vec<(u32, u64)>, id: u32, v: u64)
    ensures
        final(m)@ == dts_set(old(m)@, id, v),
{
    let mut i: usize = 0;
    while i < m.len()
        invariant
            i <= m@.len(),
            m@ == old(m)@,
            forall|j: int| 0 <= j < i ==> (#[trigger] m@[j]).0 != id,
        decreases m@.len() - i,
    {
        if m[i].0 == id {
            proof {
                lemma_dts_set_prefix(m@, i as int, id, v);
            }
            let ghost before = m@;
            m.set(i, (id, v));
            assert(m@ =~= before.subrange(0, i as int) + before.subrange(i as int, before.len() as int).update(
                0,
                (id, v),
            ));
            return;
        }
        i += 1;
    }
    proof {
        lemma_dts_set_prefix(m@, i as int, id, v);
    }
    let ghost before = m@;
    m.push((id, v));
    assert(m@ =~= before.subrange(0, i as int) + seq![(id, v)]);
}

impl IsobmffDemuxer {
    /// A demuxer that has seen nothing.
    pub fn new() -> (d: Self)
        ensures
            d@ == (DemuxModel {
                tracks: Seq::empty(),
                pending_fragments: Seq::empty(),
                events: Seq::empty(),
                epoch: 0,
                sequence: 0,
                last_dts: Seq::empty(),
                moov_seen: false,
            }),
    {
        let d = IsobmffDemuxer {
            tracks: Vec::new(),
            pending_fragments: Vec::new(),
            pending_events: VecDeque::new(),
            epoch: 0,
            sequence: 0,
            last_dts: Vec::new(),
            moov_seen: false,
        };
        assert(d@.pending_fragments =~= Seq::<TrackFragmentSpec>::empty());
        assert(d@.events =~= Seq::<EventView>::empty());
        d
    }

    /// Set the fragments of the latest `moof`, replacing those still waiting.
    pub fn set_pending_fragments(&mut self, fragments: Vec<TrackFragment>)
        ensures
            final(self)@ == (DemuxModel { pending_fragments: fragments_view(fragments@), ..old(self)@ }),
    {
        self.pending_fragments = fragments;
    }

    /// Declare the tracks of a movie header: a later header starts a new
    /// epoch and forgets the decode times seen; each track is announced.
    pub fn apply_moov(&mut self, tracks: Vec<TrackData>) -> (r: Result<(), Mp4Error>)
        ensures
            (exists|i: int| 0 <= i < tracks@.len() && (#[trigger] tracks@[i]).track_id == 0) ==> {
                &&& r == Err::<(), Mp4Error>(
                    Mp4Error::InvalidInput { code: 3401, context: Some("invalid track id 0 in moov") },
                )
                &&& final(self)@ == old(self)@
            },
            (forall|i: int| 0 <= i < tracks@.len() ==> (#[trigger] tracks@[i]).track_id != 0) ==> {
                &&& r is Ok
                &&& final(self)@ == (DemuxModel {
                    tracks: old(self)@.tracks + tracks@,
                    events: old(self)@.events + tracks@.map_values(|t: TrackData| EventView::Track(t)),
                    epoch: if old(self)@.moov_seen {
                        if old(self)@.epoch == u64::MAX {
                            u64::MAX
                        } else {
                            (old(self)@.epoch + 1) as u64
                        }
                    } else {
                        old(self)@.epoch
                    },
                    last_dts: if old(self)@.moov_seen {
                        Seq::empty()
                    } else {
                        old(self)@.last_dts
                    },
                    moov_seen: true,
                    ..old(self)@
                })
            },
    {
        let mut i: usize = 0;
        while i < tracks.len()
            invariant
                i <= tracks@.len(),
                forall|j: int| 0 <= j < i ==> (#[trigger] tracks@[j]).track_id != 0,
            decreases tracks@.len() - i,
        {
            if tracks[i].track_id == 0 {
                return Err(Mp4Error::invalid_input(3401, Some("invalid track id 0 in moov")));
            }
            i += 1;
        }
        if self.moov_seen {
            self.epoch = self.epoch.saturating_add(1);
            self.last_dts = Vec::new();
            assert(self.last_dts@ =~= Seq::<(u32, u64)>::empty());
        }
        self.moov_seen = true;
        let ghost mid = self@;
        let ghost t0 = self.tracks@;
        let ghost e0 = events_view(self.pending_events@);
        let mut k: usize = 0;
        assert(t0 + tracks@.subrange(0, 0) =~= t0);
        assert(e0 + tracks@.subrange(0, 0).map_values(|t: TrackData| EventView::Track(t)) =~= e0);
        while k < tracks.len()
            invariant
                k <= tracks@.len(),
                self.tracks@ == t0 + tracks@.subrange(0, k as int),
                events_view(self.pending_events@) == e0 + tracks@.subrange(0, k as int).map_values(
                    |t: TrackData| EventView::Track(t),
                ),
                self@.pending_fragments == mid.pending_fragments,
                self@.epoch == mid.epoch,
                self@.sequence == mid.sequence,
                self@.last_dts == mid.last_dts,
                self@.moov_seen == mid.moov_seen,
            decreases tracks@.len() - k,
        {
            let td = tracks[k];
            self.tracks.push(td);
            let ghost pe = self.pending_events@;
            self.pending_events.push_back(Mp4Event::Track(td));
            proof {
                lemma_events_push(pe, Mp4Event::Track(td));
            }
            assert(self.tracks@ =~= t0 + tracks@.subrange(0, k + 1));
            assert(tracks@.subrange(0, k + 1).map_values(|t: TrackData| EventView::Track(t))
                =~= tracks@.subrange(0, k as int).map_values(|t: TrackData| EventView::Track(t)).push(
                EventView::Track(td),
            ));
            assert(events_view(self.pending_events@) =~= e0 + tracks@.subrange(0, k + 1).map_values(
                |t: TrackData| EventView::Track(t),
            ));
            k += 1;
        }
        assert(tracks@.subrange(0, k as int) =~= tracks@);
        Ok(())
    }

    /// Hand out the oldest queued event.
    pub fn pop_event(&mut self) -> (r: Option<Mp4Event>)
        ensures
            old(self)@.events.len() == 0 ==> (r is None && final(self)@ == old(self)@),
            old(self)@.events.len() > 0 ==> (r matches Some(e) && e@ == old(self)@.events[0]
                && final(self)@ == (DemuxModel { events: old(self)@.events.drop_first(), ..old(self)@ })),
    {
        let e = match self.pending_events.pop_front() {
            Some(e) => e,
            None => {
                return None;
            },
        };
        assert(events_view(self.pending_events@) =~= old(self)@.events.drop_first());
        Some(e)
    }

    /// Emit the samples of the pending fragments from an `mdat` body whose
    /// first byte is at stream offset `mdat_data_offset`; see [`mdat_step`].
    pub fn emit_mdat_packets(&mut self, mdat_body: &[u8], mdat_data_offset: u64) -> (r: Result<
        (),
        Mp4Error,
    >)
        requires
            old(self)@.sequence + sample_total(old(self)@.pending_fragments) <= u64::MAX,
        ensures
            (final(self)@, r) == mdat_step(old(self)@, mdat_body@, mdat_data_offset),
    {
        let mut fragments: Vec<TrackFragment> = Vec::new();
        core::mem::swap(&mut fragments, &mut self.pending_fragments);
        let ghost fs = fragments_view(fragments@);
        let ghost target = mdat_step(old(self)@, mdat_body@, mdat_data_offset);
        assert(self@.pending_fragments =~= Seq::<TrackFragmentSpec>::empty());
        assert(self@ == DemuxModel { pending_fragments: Seq::empty(), ..old(self)@ });
        let n = fragments.len();
        let mut i: usize = 0;
        assert(fs.subrange(0, n as int) =~= fs);
        while i < n
            invariant
                n == fragments@.len(),
                i <= n,
                fs == fragments_view(fragments@),
                fs.len() == n,
                self@.pending_fragments == Seq::<TrackFragmentSpec>::empty(),
                self@.sequence + sample_total(fs.subrange(i as int, n as int)) <= u64::MAX,
                fragments_step(self@, fs.subrange(i as int, n as int), mdat_body@, mdat_data_offset)
                    == target,
                target == mdat_step(old(self)@, mdat_body@, mdat_data_offset),
            decreases n - i,
        {
            let ghost rest = fs.subrange(i as int, n as int);
            assert(rest.drop_first() =~= fs.subrange(i + 1, n as int));
            assert(rest[0] == fragments@[i as int].view_spec());
            proof {
                lemma_sample_total_nonneg(rest.drop_first());
            }
            let ghost m0 = self@;
            let tf = &fragments[i];
            match self.fragment(tf, mdat_body, mdat_data_offset) {
                Ok(()) => {},
                Err(e) => {
                    assert(fragments_step(m0, rest, mdat_body@, mdat_data_offset) == (
                        self@,
                        Err::<(), Mp4Error>(e),
                    ));
                    assert(target == (self@, Err::<(), Mp4Error>(e)));
                    return Err(e);
                },
            }
            i += 1;
        }
        Ok(())
    }

    /// Emit the samples of one fragment; see [`fragment_step`].
    fn fragment(&mut self, tf: &TrackFragment, mdat: &[u8], off: u64) -> (r: Result<(), Mp4Error>)
        requires
            old(self)@.sequence + tf.samples@.len() <= u64::MAX,
        ensures
            (final(self)@, r) == fragment_step(old(self)@, tf.view_spec(), mdat@, off),
            final(self)@.sequence <= old(self)@.sequence + tf.samples@.len(),
            final(self)@.pending_fragments == old(self)@.pending_fragments,
    {
        let track = match find_track_exec(&self.tracks, tf.track_id) {
            Some(t) => t,
            None => {
                return Ok(());
            },
        };
        let ghost m = self@;
        let ghost tfs = tf.view_spec();
        // Sum the durations, noting overflow.
        let mut sum: u64 = 0;
        let mut overflow = false;
        let mut j: usize = 0;
        assert(tf.samples@.subrange(0, 0) =~= Seq::<crate::isobmff::fragment::FragmentSample>::empty());
        while j < tf.samples.len()
            invariant
                j <= tf.samples@.len(),
                overflow ==> duration_sum(tf.samples@) > u64::MAX,
                !overflow ==> sum == duration_sum(tf.samples@.subrange(0, j as int)),
            decreases tf.samples@.len() - j,
        {
            proof {
                assert(tf.samples@.subrange(0, j + 1).drop_last() =~= tf.samples@.subrange(0, j as int));
                lemma_duration_sum_mono(tf.samples@, j as int + 1);
            }
            if !overflow {
                let d = tf.samples[j].duration;
                if sum > u64::MAX - d {
                    overflow = true;
                } else {
                    sum = sum + d;
                }
            }
            j += 1;
        }
        assert(tf.samples@.subrange(0, j as int) =~= tf.samples@);
        let disc = match dts_of_exec(&self.last_dts, tf.track_id) {
            None => false,
            Some(prev) => {
                overflow || tf.base_decode_time > u64::MAX - sum || tf.base_decode_time + sum < prev
                    || tf.base_decode_time < prev.saturating_sub(10_000_000)
            },
        };
        assert(disc == is_discontinuity(m.last_dts, tfs));
        if disc {
            self.epoch = self.epoch.saturating_add(1);
            let ghost pe = self.pending_events@;
            self.pending_events.push_back(Mp4Event::Discontinuity { track_id: tf.track_id });
            proof {
                lemma_events_push(pe, Mp4Event::Discontinuity { track_id: tf.track_id });
            }
        }
        let ghost events1 = events_view(self.pending_events@);
        assert(events1 == if disc {
            m.events.push(EventView::Discontinuity { track_id: tf.track_id })
        } else {
            m.events
        });
        let epoch = self.epoch;
        proof {
            lemma_emit_next_bound(tf.samples@, 0, mdat@, off, tf.base_decode_time, self.sequence, track, epoch);
        }
        let res = emit_packets(tf, mdat, off, &track, &mut self.sequence, epoch);
        let mut packets = match res {
            Ok(p) => p,
            Err(e) => {
                return Err(e);
            },
        };
        let ghost ps = packets_view(packets@);
        if packets.len() > 0 {
            let last = recorded_dts_exec(&packets[packets.len() - 1]);
            dts_set_exec(&mut self.last_dts, tf.track_id, last);
        }
        let ghost marked = mark_first(ps, disc);
        let ghost mid = self@;
        let mut k: usize = 0;
        let total = packets.len();
        while packets.len() > 0
            invariant
                k + packets@.len() == total,
                total == ps.len(),
                packets_view(packets@) == ps.subrange(k as int, total as int),
                events_view(self.pending_events@) == events1 + packet_events(marked.subrange(0, k as int)),
                marked == mark_first(ps, disc),
                total <= usize::MAX,
                self@.tracks == mid.tracks,
                self@.pending_fragments == mid.pending_fragments,
                self@.epoch == mid.epoch,
                self@.sequence == mid.sequence,
                self@.last_dts == mid.last_dts,
                self@.moov_seen == mid.moov_seen,
            decreases packets@.len(),
        {
            let ghost before = packets_view(packets@);
            let mut p = packets.remove(0);
            assert(p@ == ps[k as int]) by {
                assert(before[0] == ps.subrange(k as int, total as int)[0]);
            }
            assert(packets_view(packets@) =~= ps.subrange(k + 1, total as int)) by {
                assert forall|x: int| 0 <= x < packets@.len() implies #[trigger] packets_view(packets@)[x]
                    == ps.subrange(k + 1, total as int)[x] by {
                    assert(packets_view(packets@)[x] == before[x + 1]);
                }
            }
            if k == 0 && disc {
                p.flags.is_discontinuity = true;
            }
            assert(p@ == marked[k as int]);
            let ghost pe = self.pending_events@;
            let ghost pv = p@;
            self.pending_events.push_back(Mp4Event::Packet(p));
            proof {
                lemma_events_push(pe, Mp4Event::Packet(p));
                assert(marked.subrange(0, k + 1) =~= marked.subrange(0, k as int).push(pv));
                assert(packet_events(marked.subrange(0, k + 1)) =~= packet_events(
                    marked.subrange(0, k as int),
                ).push(EventView::Packet(pv)));
            }
            assert(events_view(self.pending_events@) =~= events1 + packet_events(
                marked.subrange(0, k + 1),
            ));
            k += 1;
        }
        assert(marked.subrange(0, k as int) =~= marked);
        Ok(())
    }
}

proof fn lemma_events_push(v: Seq<Mp4Event>, e: Mp4Event)
    ensures
        events_view(v.push(e)) == events_view(v).push(e@),
{
    assert(events_view(v.push(e)) =~= events_view(v).push(e@));
}

proof fn lemma_sample_total_nonneg(fs: Seq<TrackFragmentSpec>)
    ensures
        sample_total(fs) >= 0,
    decreases fs.len(),
{
    if fs.len() > 0 {
        lemma_sample_total_nonneg(fs.drop_first());
    }
}

proof fn lemma_emit_next_bound(
    samples: Seq<crate::isobmff::fragment::FragmentSample>,
    i: int,
    mdat: Seq<u8>,
    off: u64,
    dts: u64,
    seq: u64,
    track: TrackData,
    epoch: u64,
)
    requires
        0 <= i,
        seq + (samples.len() - i) <= u64::MAX,
    ensures
        emit_spec(samples, i, mdat, off, dts, seq, track, epoch).1 <= seq + if i < samples.len() {
            samples.len() - i
        } else {
            0
        },
    decreases samples.len() - i,
{
    if i < samples.len() {
        let s = samples[i];
        lemma_emit_next_bound(
            samples,
            i + 1,
            mdat,
            off,
            crate::isobmff::fragment::sat_add_u64(dts, s.duration),
            (seq + 1) as u64,
            track,
            epoch,
        );
    }
}

fn recorded_dts_exec(p: &MediaPacket) -> (v: u64)
    ensures
        v == recorded_dts(p@),
{
    match p.time.dts {
        Some(d) => if d < 0 {
            0
        } else {
            d as u64
        },
        None => 0,
    }
}

proof fn lemma_duration_sum_mono(s: Seq<crate::isobmff::fragment::FragmentSample>, j: int)
    requires
        0 <= j <= s.len(),
    ensures
        duration_sum(s.subrange(0, j)) <= duration_sum(s),
    decreases s.len() - j,
{
    if j < s.len() {
        lemma_duration_sum_mono(s, j + 1);
        assert(s.subrange(0, j + 1).drop_last() =~= s.subrange(0, j));
    } else {
        assert(s.subrange(0, j) =~= s);
    }
}

} // verus!
