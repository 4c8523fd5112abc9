//! The decisions of the Sans-I/O HLS client: what it asks for at start, when
//! a playlist or a download arrives, when a request fails, and when it is
//! told to reload, seek or stop. The caller reads the bytes, parses them,
//! asks its variant selector and keeps the clock; each step here takes what
//! came of that and returns the requests to make.

use vstd::prelude::*;

use vstd::string::StringExecFns;

use crate::hls::client::{
    find_part, find_segment, kind_uri, next_download, next_pick, part_before, pick_kind,
    resume_position, resume_spec, ActionKind, HlsAction,
};
use crate::hls::error::{HlsError, HlsErrorView};
use crate::hls::media::{MediaPlaylist, Segment};
use crate::hls::parser::str_is;

verus! {

/// What a loaded playlist came to.
pub enum PlaylistOutcome {
    /// A master playlist, and the URI of the variant chosen from it, or why
    /// none could be chosen.
    Master(Result<String, HlsError>),
    /// A media playlist.
    Media(MediaPlaylist),
    /// The playlist could not be read or parsed.
    Failed(HlsError),
}

/// What a client holds.
pub struct ClientModel {
    pub master_url: String,
    pub max_retry_count: u32,
    pub media_url: Option<String>,
    pub media: Option<MediaPlaylist>,
    pub epoch: u64,
    /// The requests in flight, by the epoch they were made in.
    pub inflight: Seq<(u64, ActionKind)>,
    pub selected_variant: Option<String>,
    pub next_segment_index: usize,
    pub next_part_index: usize,
    pub stopped: bool,
    pub retry_counts: Seq<(String, u32)>,
    pub last_msn: Option<u64>,
    pub last_part_msn: Option<u64>,
    pub last_part_index: Option<usize>,
}

/// The requests in flight are in increasing epoch order, none after the
/// current epoch, and the last part loaded has a successor index.
pub open spec fn model_wf(m: ClientModel) -> bool {
    &&& forall|i: int, j: int|
        0 <= i < j < m.inflight.len() ==> (#[trigger] m.inflight[i]).0 < (#[trigger] m.inflight[j]).0
    &&& forall|i: int| 0 <= i < m.inflight.len() ==> (#[trigger] m.inflight[i]).0 <= m.epoch
    &&& m.last_part_index != Some(usize::MAX)
}

/// `e + 1`, staying at `u64::MAX`.
pub open spec fn next_epoch(e: u64) -> u64 {
    if e == u64::MAX {
        e
    } else {
        (e + 1) as u64
    }
}

/// Make request `k` in a new epoch: it is in flight under that epoch (in
/// place of one already there under it), and asked for.
pub open spec fn request_spec(m: ClientModel, k: ActionKind) -> (ClientModel, Seq<HlsAction>) {
    let e = next_epoch(m.epoch);
    let inflight = if m.inflight.len() > 0 && m.inflight.last().0 == e {
        m.inflight.update(m.inflight.len() - 1, (e, k))
    } else {
        m.inflight.push((e, k))
    };
    (ClientModel { epoch: e, inflight, ..m }, seq![HlsAction { epoch: e, kind: k }])
}

/// The cancellations of the requests made before epoch `e`, in order.
pub open spec fn cancels_before(s: Seq<(u64, ActionKind)>, e: u64) -> Seq<HlsAction>
    decreases s.len(),
{
    if s.len() == 0 {
        Seq::empty()
    } else {
        cancels_before(s.drop_last(), e) + if s.last().0 < e {
            seq![HlsAction { epoch: s.last().0, kind: ActionKind::CancelEpoch { epoch: s.last().0 } }]
        } else {
            Seq::empty()
        }
    }
}

/// The requests made in epoch `e` or later.
pub open spec fn made_from(s: Seq<(u64, ActionKind)>, e: u64) -> Seq<(u64, ActionKind)>
    decreases s.len(),
{
    if s.len() == 0 {
        Seq::empty()
    } else {
        made_from(s.drop_last(), e) + if s.last().0 >= e {
            seq![s.last()]
        } else {
            Seq::empty()
        }
    }
}

/// Start a new epoch: every request made before it is cancelled and
/// forgotten, and so are the retry counts.
pub open spec fn bump_spec(m: ClientModel) -> (ClientModel, Seq<HlsAction>) {
    let e = next_epoch(m.epoch);
    (
        ClientModel {
            epoch: e,
            inflight: made_from(m.inflight, e),
            retry_counts: Seq::empty(),
            ..m
        },
        cancels_before(m.inflight, e),
    )
}

/// Stop with `err`: nothing stays in flight, and the error is reported.
pub open spec fn stop_spec(m: ClientModel, err: HlsError) -> (ClientModel, Seq<HlsAction>) {
    (
        ClientModel { stopped: true, inflight: Seq::empty(), ..m },
        seq![HlsAction { epoch: 0, kind: ActionKind::ReportError { error: err } }],
    )
}

/// The index of the request made in epoch `e`, if one is in flight.
pub open spec fn epoch_index(s: Seq<(u64, ActionKind)>, e: u64) -> Option<int> {
    if exists|i: int| 0 <= i < s.len() && (#[trigger] s[i]).0 == e {
        Some(choose|i: int| 0 <= i < s.len() && (#[trigger] s[i]).0 == e)
    } else {
        None
    }
}

/// Take the request made in epoch `e` out of flight: the request, and what
/// stays in flight.
pub open spec fn take_epoch(s: Seq<(u64, ActionKind)>, e: u64) -> (
    Option<ActionKind>,
    Seq<(u64, ActionKind)>,
) {
    match epoch_index(s, e) {
        Some(i) => (Some(s[i].1), s.remove(i)),
        None => (None, s),
    }
}

/// Whether `k` loads the playlist at `url`, as the master playlist or not.
pub open spec fn loads_playlist(k: ActionKind, url: Seq<char>, is_master: bool) -> bool {
    k matches ActionKind::LoadPlaylist { url: u, is_master: m, .. } && u@ == url && m == is_master
}

/// The requests in flight but those loading the playlist at `url`.
pub open spec fn drop_playlist(s: Seq<(u64, ActionKind)>, url: Seq<char>, is_master: bool) -> Seq<
    (u64, ActionKind),
>
    decreases s.len(),
{
    if s.len() == 0 {
        Seq::empty()
    } else {
        drop_playlist(s.drop_last(), url, is_master) + if loads_playlist(s.last().1, url, is_master) {
            Seq::empty()
        } else {
            seq![s.last()]
        }
    }
}

/// The requests of the entries in flight.
pub open spec fn kinds(s: Seq<(u64, ActionKind)>) -> Seq<ActionKind> {
    s.map_values(|x: (u64, ActionKind)| x.1)
}

/// Ask for the next download of the media playlist, if any, moving the
/// download position past it.
pub open spec fn schedule_spec(m: ClientModel) -> (ClientModel, Seq<HlsAction>) {
    match m.media {
        None => (m, Seq::empty()),
        Some(pl) => {
            let (pick, s, p) = next_pick(
                pl.segments@,
                m.next_segment_index as int,
                m.next_part_index as int,
                kinds(m.inflight),
            );
            let m1 = ClientModel { next_segment_index: s as usize, next_part_index: p as usize, ..m };
            match pick_kind(pl.segments@, pick) {
                None => (m1, Seq::empty()),
                Some(k) => request_spec(m1, k),
            }
        },
    }
}


/// The client stopped: nothing stays in flight.
pub open spec fn stopped_model(m: ClientModel) -> ClientModel {
    ClientModel { stopped: true, inflight: Seq::empty(), ..m }
}

/// Segment `i` of `segs` is the first whose URI is `uri`.
pub open spec fn first_segment_at(segs: Seq<Segment>, uri: Seq<char>, i: int) -> bool {
    &&& 0 <= i < segs.len()
    &&& segs[i].uri@ == uri
    &&& forall|j: int| 0 <= j < i ==> (#[trigger] segs[j]).uri@ != uri
}

/// The index of the first segment of `segs` whose URI is `uri`.
pub open spec fn first_segment(segs: Seq<Segment>, uri: Seq<char>) -> Option<int> {
    if exists|i: int| first_segment_at(segs, uri, i) {
        Some(choose|i: int| first_segment_at(segs, uri, i))
    } else {
        None
    }
}

/// Part `pi` of segment `si` of `segs` is the first part, in playlist
/// order, whose URI is `uri`.
pub open spec fn first_part_at(segs: Seq<Segment>, uri: Seq<char>, si: int, pi: int) -> bool {
    &&& 0 <= si < segs.len()
    &&& 0 <= pi < segs[si].parts@.len()
    &&& segs[si].parts@[pi].uri@ == uri
    &&& forall|j: int, k: int|
        0 <= j < segs.len() && 0 <= k < segs[j].parts@.len() && part_before(j, k, si, pi) ==> (
        #[trigger] segs[j].parts@[k]).uri@ != uri
}

/// The segment and part indexes of the first part of `segs` whose URI is `uri`.
pub open spec fn first_part(segs: Seq<Segment>, uri: Seq<char>) -> Option<(int, int)> {
    if exists|si: int, pi: int| first_part_at(segs, uri, si, pi) {
        Some(choose|si: int, pi: int| first_part_at(segs, uri, si, pi))
    } else {
        None
    }
}

/// A segment download at `uri` came in: its media sequence number is the
/// last one loaded unless a later one was, no part is the last loaded, and
/// the download position moves past it when it was the current segment.
pub open spec fn segment_loaded(m: ClientModel, uri: Seq<char>) -> ClientModel {
    match m.media {
        None => m,
        Some(pl) => match first_segment(pl.segments@, uri) {
            None => m,
            Some(idx) => {
                let msn = pl.segments@[idx].media_sequence;
                let m1 = ClientModel {
                    last_msn: if m.last_msn matches Some(l) && msn < l {
                        m.last_msn
                    } else {
                        Some(msn)
                    },
                    last_part_msn: None,
                    last_part_index: None,
                    ..m
                };
                if idx == m.next_segment_index {
                    ClientModel { next_segment_index: (idx + 1) as usize, next_part_index: 0, ..m1 }
                } else {
                    m1
                }
            },
        },
    }
}

/// A part download at `uri` came in: it is the last part loaded, and the
/// download position moves past it when it is at or after the current part
/// of the current segment.
pub open spec fn part_loaded(m: ClientModel, uri: Seq<char>) -> ClientModel {
    match m.media {
        None => m,
        Some(pl) => match first_part(pl.segments@, uri) {
            None => m,
            Some((si, pi)) => {
                let m1 = ClientModel {
                    last_part_msn: Some(pl.segments@[si].media_sequence),
                    last_part_index: Some(pi as usize),
                    ..m
                };
                if si == m.next_segment_index && pi >= m.next_part_index {
                    ClientModel { next_part_index: (pi + 1) as usize, ..m1 }
                } else {
                    m1
                }
            },
        },
    }
}

/// The retry counts but that of `uri`.
pub open spec fn drop_count(s: Seq<(String, u32)>, uri: Seq<char>) -> Seq<(String, u32)>
    decreases s.len(),
{
    if s.len() == 0 {
        Seq::empty()
    } else {
        drop_count(s.drop_last(), uri) + if s.last().0@ == uri {
            Seq::empty()
        } else {
            seq![s.last()]
        }
    }
}

/// A download of `uri` made in epoch `e` came in: the request leaves flight
/// and, if it was a segment or part of the playlist, the position and the
/// last loaded segment or part follow; its retry count is forgotten; then
/// the next download is asked for. A stopped client does nothing.
pub open spec fn resource_spec(m: ClientModel, uri: Seq<char>, e: u64) -> (ClientModel, Seq<HlsAction>) {
    if m.stopped {
        (m, Seq::empty())
    } else {
        let (k, inflight) = take_epoch(m.inflight, e);
        let m1 = ClientModel { inflight, ..m };
        let m2 = match k {
            Some(ActionKind::LoadSegment { uri: u, .. }) => segment_loaded(m1, u@),
            Some(ActionKind::LoadPart { uri: u, .. }) => part_loaded(m1, u@),
            _ => m1,
        };
        let m3 = if k is Some {
            ClientModel { retry_counts: drop_count(m2.retry_counts, uri), ..m2 }
        } else {
            m2
        };
        schedule_spec(m3)
    }
}

/// The index of the retry count of `uri`.
pub open spec fn count_index(s: Seq<(String, u32)>, uri: Seq<char>) -> Option<int> {
    if exists|i: int| 0 <= i < s.len() && (#[trigger] s[i]).0@ == uri {
        Some(
            choose|i: int|
                0 <= i < s.len() && (#[trigger] s[i]).0@ == uri && forall|j: int|
                    0 <= j < i ==> (#[trigger] s[j]).0@ != uri,
        )
    } else {
        None
    }
}

/// What a failed request leads to.
pub enum FailStep {
    /// Nothing: the failure is of a request no longer in flight.
    Quiet,
    /// Stopping, reporting an unsupported feature with this description.
    Report(Seq<char>),
    /// These requests.
    Requests(Seq<HlsAction>),
}

/// The request of `uri` made in epoch `e` failed: a failure of a request no
/// longer in flight is ignored; one that cannot be retried stops the client;
/// else it is retried in a new epoch unless its retries are used up, which
/// stops the client. The retry count of `uri` is started at 0 if missing.
pub open spec fn failed_spec(m: ClientModel, uri: String, retryable: bool, e: u64) -> (
    ClientModel,
    FailStep,
) {
    if m.stopped {
        (m, FailStep::Quiet)
    } else {
        let (k, inflight) = take_epoch(m.inflight, e);
        match k {
            None => (m, FailStep::Quiet),
            Some(kind) => {
                let m1 = ClientModel { inflight, ..m };
                if !retryable {
                    (
                        stopped_model(m1),
                        FailStep::Report("non-retryable request failed: "@ + uri@),
                    )
                } else {
                    retry_spec(m1, uri, kind)
                }
            },
        }
    }
}

/// Retry `kind`, the request of `uri`, unless its retries are used up.
pub open spec fn retry_spec(m1: ClientModel, uri: String, kind: ActionKind) -> (ClientModel, FailStep) {
                    let rc = m1.retry_counts;
                    let idx = count_index(rc, uri@);
                    let c: u32 = match idx {
                        Some(i) => rc[i].1,
                        None => 0,
                    };
                    let j: int = match idx {
                        Some(i) => i,
                        None => rc.len() as int,
                    };
                    let rc1 = match idx {
                        Some(_) => rc,
                        None => rc.push((uri, 0u32)),
                    };
                    if c >= m1.max_retry_count {
                        (
                            stopped_model(ClientModel { retry_counts: rc1, ..m1 }),
                            FailStep::Report("retries exhausted for "@ + uri@),
                        )
                    } else {
                        let m2 = ClientModel {
                            retry_counts: rc1.update(j, (rc1[j].0, (c + 1) as u32)),
                            ..m1
                        };
                        let (m3, a) = request_spec(m2, kind);
                        (m3, FailStep::Requests(a))
                    }
}

/// A playlist from `url` came in, with what became of it: its load leaves
/// flight. An unreadable playlist, or a master playlist with no variant to
/// choose, stops the client. A master playlist's chosen variant starts a new
/// epoch and is loaded. A media playlist reloaded from the same URL resumes
/// after what was last loaded; a new one starts from the beginning in a new
/// epoch; then the next download is asked for. A stopped client does nothing.
pub open spec fn playlist_spec(m: ClientModel, url: String, outcome: PlaylistOutcome) -> (
    ClientModel,
    Seq<HlsAction>,
) {
    if m.stopped {
        (m, Seq::empty())
    } else {
        let is_master = url@ == m.master_url@;
        let m1 = ClientModel { inflight: drop_playlist(m.inflight, url@, is_master), ..m };
        match outcome {
            PlaylistOutcome::Failed(e) => stop_spec(m1, e),
            PlaylistOutcome::Master(Err(e)) => stop_spec(m1, e),
            PlaylistOutcome::Master(Ok(u)) => {
                let (m2, a) = bump_spec(ClientModel { selected_variant: Some(u), ..m1 });
                let (m3, b) = request_spec(
                    m2,
                    ActionKind::LoadPlaylist { url: u, is_master: false, blocking: false },
                );
                (m3, a + b)
            },
            PlaylistOutcome::Media(pl) => {
                let reload = m1.media_url matches Some(x) && x@ == url@;
                let m2 = if reload {
                    let rp = resume_spec(
                        pl.segments@,
                        m1.last_msn,
                        m1.last_part_msn,
                        m1.last_part_index,
                    );
                    ClientModel {
                        next_segment_index: rp.0 as usize,
                        next_part_index: rp.1 as usize,
                        ..m1
                    }
                } else {
                    ClientModel {
                        next_segment_index: 0,
                        next_part_index: 0,
                        last_msn: None,
                        last_part_msn: None,
                        last_part_index: None,
                        ..m1
                    }
                };
                let m3 = ClientModel { media: Some(pl), media_url: Some(url), ..m2 };
                let (m4, a) = if reload {
                    (m3, Seq::empty())
                } else {
                    bump_spec(m3)
                };
                let (m5, b) = schedule_spec(m4);
                (m5, a + b)
            },
        }
    }
}

/// Jump to segment `idx`: a new epoch, the position at its start, nothing
/// loaded yet, and the next download asked for.
pub open spec fn seek_spec(m: ClientModel, idx: usize) -> (ClientModel, Seq<HlsAction>) {
    let (m1, a) = bump_spec(m);
    let m2 = ClientModel {
        next_segment_index: idx,
        next_part_index: 0,
        last_msn: None,
        last_part_msn: None,
        last_part_index: None,
        ..m1
    };
    let (m3, b) = schedule_spec(m2);
    (m3, a + b)
}

/// Whether a media playlist load is in flight.
pub open spec fn reload_pending_spec(m: ClientModel) -> bool {
    exists|i: int|
        0 <= i < m.inflight.len() && (#[trigger] m.inflight[i]).1 matches ActionKind::LoadPlaylist {
            is_master: false,
            ..
        }
}


proof fn lemma_first_segment(segs: Seq<Segment>, uri: Seq<char>, i: int)
    requires
        first_segment_at(segs, uri, i),
    ensures
        first_segment(segs, uri) == Some(i),
{
    let c = choose|c: int| first_segment_at(segs, uri, c);
    assert(first_segment_at(segs, uri, c));
    if c < i {
        assert(segs[c].uri@ != uri);
    } else if c > i {
        assert(segs[i].uri@ != uri);
    }
}

proof fn lemma_no_segment(segs: Seq<Segment>, uri: Seq<char>)
    requires
        forall|j: int| 0 <= j < segs.len() ==> (#[trigger] segs[j]).uri@ != uri,
    ensures
        first_segment(segs, uri) is None,
{
    assert(!exists|i: int| first_segment_at(segs, uri, i));
}

proof fn lemma_first_part(segs: Seq<Segment>, uri: Seq<char>, si: int, pi: int)
    requires
        first_part_at(segs, uri, si, pi),
    ensures
        first_part(segs, uri) == Some((si, pi)),
{
    let (a, b) = choose|a: int, b: int| first_part_at(segs, uri, a, b);
    assert(first_part_at(segs, uri, a, b));
    if part_before(a, b, si, pi) {
        assert(segs[a].parts@[b].uri@ != uri);
    } else if part_before(si, pi, a, b) {
        assert(segs[si].parts@[pi].uri@ != uri);
    }
}

proof fn lemma_no_part(segs: Seq<Segment>, uri: Seq<char>)
    requires
        forall|j: int, k: int|
            0 <= j < segs.len() && 0 <= k < segs[j].parts@.len() ==> (
            #[trigger] segs[j].parts@[k]).uri@ != uri,
    ensures
        first_part(segs, uri) is None,
{
    assert(!exists|si: int, pi: int| first_part_at(segs, uri, si, pi));
}

/// A Sans-I/O HLS client without its clock, parser and selector.
pub struct ClientCore {
    master_url: String,
    max_retry_count: u32,
    media_url: Option<String>,
    media: Option<MediaPlaylist>,
    epoch: u64,
    inflight: Vec<(u64, ActionKind)>,
    selected_variant: Option<String>,
    next_segment_index: usize,
    next_part_index: usize,
    stopped: bool,
    retry_counts: Vec<(String, u32)>,
    last_msn: Option<u64>,
    last_part_msn: Option<u64>,
    last_part_index: Option<usize>,
}

impl View for ClientCore {
    type V = ClientModel;

    closed spec fn view(&self) -> ClientModel {
        ClientModel {
            master_url: self.master_url,
            max_retry_count: self.max_retry_count,
            media_url: self.media_url,
            media: self.media,
            epoch: self.epoch,
            inflight: self.inflight@,
            selected_variant: self.selected_variant,
            next_segment_index: self.next_segment_index,
            next_part_index: self.next_part_index,
            stopped: self.stopped,
            retry_counts: self.retry_counts@,
            last_msn: self.last_msn,
            last_part_msn: self.last_part_msn,
            last_part_index: self.last_part_index,
        }
    }
}

impl ClientCore {
    /// A client for the master playlist at `master_url`, giving up on a
    /// request after `max_retry_count` retries.
    pub fn new(master_url: String, max_retry_count: u32) -> (c: Self)
        ensures
            model_wf(c@),
            c@ == (ClientModel {
                master_url,
                max_retry_count,
                media_url: None,
                media: None,
                epoch: 0,
                inflight: Seq::empty(),
                selected_variant: None,
                next_segment_index: 0,
                next_part_index: 0,
                stopped: false,
                retry_counts: Seq::empty(),
                last_msn: None,
                last_part_msn: None,
                last_part_index: None,
            }),
    {
        let c = ClientCore {
            master_url,
            max_retry_count,
            media_url: None,
            media: None,
            epoch: 0,
            inflight: Vec::new(),
            selected_variant: None,
            next_segment_index: 0,
            next_part_index: 0,
            stopped: false,
            retry_counts: Vec::new(),
            last_msn: None,
            last_part_msn: None,
            last_part_index: None,
        };
        assert(c@.inflight =~= Seq::<(u64, ActionKind)>::empty());
        assert(c@.retry_counts =~= Seq::<(String, u32)>::empty());
        c
    }

    /// The current epoch.
    pub fn epoch(&self) -> (e: u64)
        ensures
            e == self@.epoch,
    {
        self.epoch
    }

    /// Whether the client has stopped.
    pub fn stopped(&self) -> (b: bool)
        ensures
            b == self@.stopped,
    {
        self.stopped
    }

    /// The master playlist's URL.
    pub fn master_url(&self) -> (u: &str)
        ensures
            u@ == self@.master_url@,
    {
        self.master_url.as_str()
    }

    /// The URI of the variant chosen from the master playlist, once chosen.
    pub fn selected_variant(&self) -> (u: Option<&str>)
        ensures
            match self@.selected_variant {
                Some(s) => u matches Some(x) && x@ == s@,
                None => u is None,
            },
    {
        match &self.selected_variant {
            Some(s) => Some(s.as_str()),
            None => None,
        }
    }

    fn request(&mut self, kind: ActionKind) -> (r: Vec<HlsAction>)
        requires
            model_wf(old(self)@),
        ensures
            model_wf(final(self)@),
            (final(self)@, r@) == request_spec(old(self)@, kind),
    {
        let ghost m0 = self@;
        let e = self.epoch.saturating_add(1);
        let action = HlsAction { epoch: e, kind: kind.copy() };
        let n = self.inflight.len();
        if n > 0 && self.inflight[n - 1].0 == e {
            self.inflight.set(n - 1, (e, kind));
        } else {
            self.inflight.push((e, kind));
        }
        self.epoch = e;
        let mut r = Vec::new();
        r.push(action);
        assert(r@ =~= seq![action]);
        assert(self@ == request_spec(m0, action.kind).0);
        r
    }

    fn bump_epoch(&mut self) -> (r: Vec<HlsAction>)
        requires
            model_wf(old(self)@),
        ensures
            model_wf(final(self)@),
            (final(self)@, r@) == bump_spec(old(self)@),
    {
        let ghost m0 = self@;
        let ghost s = self.inflight@;
        let e = self.epoch.saturating_add(1);
        let n = self.inflight.len();
        let mut kept: Vec<(u64, ActionKind)> = Vec::new();
        let mut actions: Vec<HlsAction> = Vec::new();
        let mut i: usize = 0;
        while i < n
            invariant
                n == s.len(),
                s == self.inflight@,
                model_wf(m0),
                s == m0.inflight,
                e == next_epoch(m0.epoch),
                i <= n,
                kept@ == made_from(s.subrange(0, i as int), e),
                actions@ == cancels_before(s.subrange(0, i as int), e),
                forall|a: int, b: int|
                    0 <= a < b < kept@.len() ==> (#[trigger] kept@[a]).0 < (#[trigger] kept@[b]).0,
                forall|a: int| 0 <= a < kept@.len() ==> (#[trigger] kept@[a]).0 <= e,
                forall|a: int, b: int|
                    0 <= a < kept@.len() && i <= b < n ==> (#[trigger] kept@[a]).0 < (
                    #[trigger] s[b]).0,
            decreases n - i,
        {
            let key = self.inflight[i].0;
            assert(s.subrange(0, i + 1).drop_last() =~= s.subrange(0, i as int));
            if key < e {
                actions.push(HlsAction { epoch: key, kind: ActionKind::CancelEpoch { epoch: key } });
            } else {
                kept.push((key, self.inflight[i].1.copy()));
            }
            i += 1;
        }
        assert(s.subrange(0, n as int) =~= s);
        self.inflight = kept;
        self.epoch = e;
        self.retry_counts = Vec::new();
        assert(self@.retry_counts =~= Seq::<(String, u32)>::empty());
        actions
    }

    fn stop_with_error(&mut self, error: HlsError) -> (r: Vec<HlsAction>)
        requires
            model_wf(old(self)@),
        ensures
            model_wf(final(self)@),
            (final(self)@, r@) == stop_spec(old(self)@, error),
    {
        self.stopped = true;
        self.inflight = Vec::new();
        let mut r = Vec::new();
        r.push(HlsAction { epoch: 0, kind: ActionKind::ReportError { error } });
        assert(self@.inflight =~= Seq::<(u64, ActionKind)>::empty());
        assert(r@ =~= seq![HlsAction { epoch: 0, kind: ActionKind::ReportError { error } }]);
        r
    }

    /// Stop with `error`, reporting it; see [`stop_spec`].
    pub fn fail(&mut self, error: HlsError) -> (r: Vec<HlsAction>)
        requires
            model_wf(old(self)@),
        ensures
            model_wf(final(self)@),
            (final(self)@, r@) == stop_spec(old(self)@, error),
    {
        self.stop_with_error(error)
    }

    /// Stop without reporting: nothing stays in flight.
    pub fn stop(&mut self)
        requires
            model_wf(old(self)@),
        ensures
            model_wf(final(self)@),
            final(self)@ == (ClientModel { stopped: true, inflight: Seq::empty(), ..old(self)@ }),
    {
        self.stopped = true;
        self.inflight = Vec::new();
        assert(self@.inflight =~= Seq::<(u64, ActionKind)>::empty());
    }

    fn take_epoch(&mut self, e: u64) -> (r: Option<ActionKind>)
        requires
            model_wf(old(self)@),
        ensures
            model_wf(final(self)@),
            (r, final(self)@.inflight) == take_epoch(old(self)@.inflight, e),
            final(self)@ == (ClientModel { inflight: final(self)@.inflight, ..old(self)@ }),
    {
        let ghost s = self.inflight@;
        let n = self.inflight.len();
        let mut i: usize = 0;
        while i < n
            invariant
                n == s.len(),
                s == self.inflight@,
                self@ == old(self)@,
                model_wf(old(self)@),
                s == old(self)@.inflight,
                i <= n,
                forall|j: int| 0 <= j < i ==> (#[trigger] s[j]).0 != e,
            decreases n - i,
        {
            if self.inflight[i].0 == e {
                let ghost c = choose|j: int| 0 <= j < s.len() && (#[trigger] s[j]).0 == e;
                assert(s[c].0 == e);
                assert(c == i as int) by {
                    if c < i {
                    } else if c > i {
                        assert(s[i as int].0 < s[c].0);
                    }
                }
                let (_, k) = self.inflight.remove(i);
                assert forall|a: int, b: int|
                    0 <= a < b < self.inflight@.len() implies (#[trigger] self.inflight@[a]).0 < (
                    #[trigger] self.inflight@[b]).0 by {
                    let a0 = if a < i { a } else { a + 1 };
                    let b0 = if b < i { b } else { b + 1 };
                    assert(self.inflight@[a] == s[a0]);
                    assert(self.inflight@[b] == s[b0]);
                }
                assert forall|a: int| 0 <= a < self.inflight@.len() implies (
                #[trigger] self.inflight@[a]).0 <= self.epoch by {
                    let a0 = if a < i { a } else { a + 1 };
                    assert(self.inflight@[a] == s[a0]);
                }
                return Some(k);
            }
            i += 1;
        }
        assert(epoch_index(s, e) is None);
        None
    }

    fn drop_playlist_loads(&mut self, url: &str, is_master: bool)
        requires
            model_wf(old(self)@),
        ensures
            model_wf(final(self)@),
            final(self)@ == (ClientModel {
                inflight: drop_playlist(old(self)@.inflight, url@, is_master),
                ..old(self)@
            }),
    {
        let ghost m0 = self@;
        let ghost s = self.inflight@;
        let n = self.inflight.len();
        let mut kept: Vec<(u64, ActionKind)> = Vec::new();
        let mut i: usize = 0;
        while i < n
            invariant
                n == s.len(),
                s == self.inflight@,
                self@ == m0,
                model_wf(m0),
                s == m0.inflight,
                i <= n,
                kept@ == drop_playlist(s.subrange(0, i as int), url@, is_master),
                forall|a: int, b: int|
                    0 <= a < b < kept@.len() ==> (#[trigger] kept@[a]).0 < (#[trigger] kept@[b]).0,
                forall|a: int| 0 <= a < kept@.len() ==> (#[trigger] kept@[a]).0 <= m0.epoch,
                forall|a: int, b: int|
                    0 <= a < kept@.len() && i <= b < n ==> (#[trigger] kept@[a]).0 < (
                    #[trigger] s[b]).0,
            decreases n - i,
        {
            assert(s.subrange(0, i + 1).drop_last() =~= s.subrange(0, i as int));
            let drop = match &self.inflight[i].1 {
                ActionKind::LoadPlaylist { url: u, is_master: m, .. } => str_is(u, url) && *m
                    == is_master,
                _ => false,
            };
            if !drop {
                let key = self.inflight[i].0;
                kept.push((key, self.inflight[i].1.copy()));
            }
            i += 1;
        }
        assert(s.subrange(0, n as int) =~= s);
        self.inflight = kept;
    }

    fn schedule_downloads(&mut self) -> (r: Vec<HlsAction>)
        requires
            model_wf(old(self)@),
        ensures
            model_wf(final(self)@),
            (final(self)@, r@) == schedule_spec(old(self)@),
    {
        let ghost s = self.inflight@;
        let n = self.inflight.len();
        let mut ks: Vec<ActionKind> = Vec::new();
        let mut i: usize = 0;
        while i < n
            invariant
                n == s.len(),
                s == self.inflight@,
                self@ == old(self)@,
                model_wf(old(self)@),
                i <= n,
                ks@ == kinds(s.subrange(0, i as int)),
            decreases n - i,
        {
            ks.push(self.inflight[i].1.copy());
            assert(ks@ =~= kinds(s.subrange(0, i + 1)));
            i += 1;
        }
        assert(s.subrange(0, n as int) =~= s);
        let (kind, seg, part) = match &self.media {
            Some(m) => next_download(m, self.next_segment_index, self.next_part_index, &ks),
            None => {
                return Vec::new();
            },
        };
        self.next_segment_index = seg;
        self.next_part_index = part;
        assert(self@.inflight == old(self)@.inflight && self@.epoch == old(self)@.epoch
            && self@.last_part_index == old(self)@.last_part_index);
        match kind {
            Some(k) => self.request(k),
            None => Vec::new(),
        }
    }

    /// Start the client: load the master playlist, unless stopped.
    pub fn start(&mut self) -> (r: Vec<HlsAction>)
        requires
            model_wf(old(self)@),
        ensures
            model_wf(final(self)@),
            old(self)@.stopped ==> final(self)@ == old(self)@ && r@.len() == 0,
            !old(self)@.stopped ==> (final(self)@, r@) == request_spec(
                old(self)@,
                ActionKind::LoadPlaylist { url: old(self)@.master_url, is_master: true, blocking: false },
            ),
    {
        if self.stopped {
            return Vec::new();
        }
        let url = self.master_url.clone();
        self.request(ActionKind::LoadPlaylist { url, is_master: true, blocking: false })
    }

    /// Whether a media playlist load is in flight.
    pub fn reload_pending(&self) -> (b: bool)
        ensures
            b == reload_pending_spec(self@),
    {
        let mut i: usize = 0;
        while i < self.inflight.len()
            invariant
                i <= self.inflight@.len(),
                forall|j: int|
                    0 <= j < i ==> !((#[trigger] self.inflight@[j]).1 matches ActionKind::LoadPlaylist {
                        is_master: false,
                        ..
                    }),
            decreases self.inflight@.len() - i,
        {
            if let ActionKind::LoadPlaylist { is_master: false, .. } = &self.inflight[i].1 {
                return true;
            }
            i += 1;
        }
        false
    }

    /// Reload the media playlist, if one was loaded.
    pub fn reload_media(&mut self, blocking: bool) -> (r: Vec<HlsAction>)
        requires
            model_wf(old(self)@),
        ensures
            model_wf(final(self)@),
            match old(self)@.media_url {
                None => final(self)@ == old(self)@ && r@.len() == 0,
                Some(u) => (final(self)@, r@) == request_spec(
                    old(self)@,
                    ActionKind::LoadPlaylist { url: u, is_master: false, blocking },
                ),
            },
    {
        let url = match &self.media_url {
            Some(u) => u.clone(),
            None => {
                return Vec::new();
            },
        };
        self.request(ActionKind::LoadPlaylist { url, is_master: false, blocking })
    }

    /// Jump to segment `idx`; see [`seek_spec`].
    pub fn seek_to(&mut self, idx: usize) -> (r: Vec<HlsAction>)
        requires
            model_wf(old(self)@),
        ensures
            model_wf(final(self)@),
            (final(self)@, r@) == seek_spec(old(self)@, idx),
    {
        let mut a = self.bump_epoch();
        let ghost m1 = self@;
        self.next_segment_index = idx;
        self.next_part_index = 0;
        self.last_msn = None;
        self.last_part_msn = None;
        self.last_part_index = None;
        assert(self@.inflight == m1.inflight && self@.epoch == m1.epoch);
        let mut b = self.schedule_downloads();
        a.append(&mut b);
        a
    }

    fn segment_loaded(&mut self, uri: &str)
        requires
            model_wf(old(self)@),
        ensures
            model_wf(final(self)@),
            final(self)@ == segment_loaded(old(self)@, uri@),
    {
        let (idx, msn) = match &self.media {
            None => {
                return;
            },
            Some(m) => match find_segment(&self.media, uri) {
                Some((i, seg)) => {
                    let n = m.segments.len();
                    assert(i < n);
                    (i, seg.media_sequence)
                },
                None => {
                    proof {
                        lemma_no_segment(self.media->Some_0.segments@, uri@);
                    }
                    return;
                },
            },
        };
        proof {
            lemma_first_segment(self.media->Some_0.segments@, uri@, idx as int);
        }
        let ghost m0 = self@;
        let keep = match self.last_msn {
            Some(l) => msn < l,
            None => false,
        };
        if !keep {
            self.last_msn = Some(msn);
        }
        self.last_part_msn = None;
        self.last_part_index = None;
        if idx == self.next_segment_index {
            self.next_segment_index = idx + 1;
            self.next_part_index = 0;
        }
        assert(self@.inflight == m0.inflight && self@.epoch == m0.epoch);
    }

    fn part_loaded(&mut self, uri: &str)
        requires
            model_wf(old(self)@),
        ensures
            model_wf(final(self)@),
            final(self)@ == part_loaded(old(self)@, uri@),
    {
        let (si, pi, msn) = match &self.media {
            None => {
                return;
            },
            Some(_) => match find_part(&self.media, uri) {
                Some((si, pi, _p, seg)) => {
                    let n = seg.parts.len();
                    assert(pi < n);
                    (si, pi, seg.media_sequence)
                },
                None => {
                    proof {
                        lemma_no_part(self.media->Some_0.segments@, uri@);
                    }
                    return;
                },
            },
        };
        proof {
            lemma_first_part(self.media->Some_0.segments@, uri@, si as int, pi as int);
        }
        let ghost m0 = self@;
        self.last_part_msn = Some(msn);
        self.last_part_index = Some(pi);
        if si == self.next_segment_index && pi >= self.next_part_index {
            self.next_part_index = pi + 1;
        }
        assert(self@.inflight == m0.inflight && self@.epoch == m0.epoch);
    }

    fn drop_retry_count(&mut self, uri: &str)
        requires
            model_wf(old(self)@),
        ensures
            model_wf(final(self)@),
            final(self)@ == (ClientModel {
                retry_counts: drop_count(old(self)@.retry_counts, uri@),
                ..old(self)@
            }),
    {
        let ghost s = self.retry_counts@;
        let n = self.retry_counts.len();
        let mut kept: Vec<(String, u32)> = Vec::new();
        let mut i: usize = 0;
        while i < n
            invariant
                n == s.len(),
                s == self.retry_counts@,
                i <= n,
                kept@ == drop_count(s.subrange(0, i as int), uri@),
            decreases n - i,
        {
            assert(s.subrange(0, i + 1).drop_last() =~= s.subrange(0, i as int));
            if !str_is(&self.retry_counts[i].0, uri) {
                let c = self.retry_counts[i].1;
                kept.push((self.retry_counts[i].0.clone(), c));
            }
            i += 1;
        }
        assert(s.subrange(0, n as int) =~= s);
        self.retry_counts = kept;
    }

    fn count_index(&self, uri: &str) -> (r: Option<usize>)
        ensures
            match count_index(self@.retry_counts, uri@) {
                Some(i) => r matches Some(x) && x as int == i && 0 <= i < self@.retry_counts.len(),
                None => r is None,
            },
    {
        let ghost s = self.retry_counts@;
        let mut i: usize = 0;
        while i < self.retry_counts.len()
            invariant
                s == self.retry_counts@,
                i <= s.len(),
                forall|j: int| 0 <= j < i ==> (#[trigger] s[j]).0@ != uri@,
            decreases s.len() - i,
        {
            if str_is(&self.retry_counts[i].0, uri) {
                proof {
                    let c = choose|c: int|
                        0 <= c < s.len() && (#[trigger] s[c]).0@ == uri@ && forall|j: int|
                            0 <= j < c ==> (#[trigger] s[j]).0@ != uri@;
                    assert(0 <= c < s.len() && s[c].0@ == uri@);
                    if c < i {
                    } else if c > i {
                        assert(s[i as int].0@ != uri@);
                    }
                }
                return Some(i);
            }
            i += 1;
        }
        None
    }

    /// A download of `uri` made in epoch `epoch` came in; see [`resource_spec`].
    pub fn resource_loaded(&mut self, uri: &str, epoch: u64) -> (r: Vec<HlsAction>)
        requires
            model_wf(old(self)@),
        ensures
            model_wf(final(self)@),
            (final(self)@, r@) == resource_spec(old(self)@, uri@, epoch),
    {
        if self.stopped {
            return Vec::new();
        }
        let kind = self.take_epoch(epoch);
        match &kind {
            Some(ActionKind::LoadSegment { uri: u, .. }) => self.segment_loaded(u.as_str()),
            Some(ActionKind::LoadPart { uri: u, .. }) => self.part_loaded(u.as_str()),
            _ => {},
        }
        if kind.is_some() {
            self.drop_retry_count(uri);
        }
        self.schedule_downloads()
    }

    /// The request of `uri` made in epoch `epoch` failed; see [`failed_spec`].
    pub fn request_failed(&mut self, uri: String, retryable: bool, epoch: u64) -> (r: Vec<HlsAction>)
        requires
            model_wf(old(self)@),
        ensures
            model_wf(final(self)@),
            ({
                let (m, step) = failed_spec(old(self)@, uri, retryable, epoch);
                &&& final(self)@ == m
                &&& match step {
                    FailStep::Quiet => r@.len() == 0,
                    FailStep::Report(msg) => {
                        &&& r@.len() == 1
                        &&& r@[0].epoch == 0
                        &&& r@[0].kind matches ActionKind::ReportError { error }
                        &&& error@ == (HlsErrorView::Unsupported { feature: msg })
                    },
                    FailStep::Requests(a) => r@ == a,
                }
            }),
    {
        if self.stopped {
            return Vec::new();
        }
        let kind = match self.take_epoch(epoch) {
            Some(k) => k,
            None => {
                return Vec::new();
            },
        };
        if !retryable {
            let mut msg = String::from_str("non-retryable request failed: ");
            msg.append(uri.as_str());
            return self.stop_with_error(HlsError::Unsupported { feature: msg });
        }
        self.retry(uri, kind)
    }

    fn retry(&mut self, uri: String, kind: ActionKind) -> (r: Vec<HlsAction>)
        requires
            model_wf(old(self)@),
        ensures
            model_wf(final(self)@),
            ({
                let (m, step) = retry_spec(old(self)@, uri, kind);
                &&& final(self)@ == m
                &&& match step {
                    FailStep::Quiet => r@.len() == 0,
                    FailStep::Report(msg) => {
                        &&& r@.len() == 1
                        &&& r@[0].epoch == 0
                        &&& r@[0].kind matches ActionKind::ReportError { error }
                        &&& error@ == (HlsErrorView::Unsupported { feature: msg })
                    },
                    FailStep::Requests(a) => r@ == a,
                }
            }),
    {
        let ghost m1 = self@;
        let ghost rc = m1.retry_counts;
        let ghost sidx = count_index(rc, uri@);
        let ghost sc: u32 = match sidx {
            Some(i) => rc[i].1,
            None => 0,
        };
        let ghost sj: int = match sidx {
            Some(i) => i,
            None => rc.len() as int,
        };
        let ghost rc1 = match sidx {
            Some(_) => rc,
            None => rc.push((uri, 0u32)),
        };
        let idx = self.count_index(uri.as_str());
        let j = match idx {
            Some(i) => {
                assert(sidx == Some(i as int));
                i
            },
            None => {
                assert(sidx is None);
                self.retry_counts.push((uri.clone(), 0));
                assert(self.retry_counts@.len() == rc.len() + 1);
                self.retry_counts.len() - 1
            },
        };
        assert(self@ == (ClientModel { retry_counts: rc1, ..m1 }));
        assert(j as int == sj);
        let c = self.retry_counts[j].1;
        assert(c == sc);
        if c >= self.max_retry_count {
            let mut msg = String::from_str("retries exhausted for ");
            msg.append(uri.as_str());
            let r = self.stop_with_error(HlsError::Unsupported { feature: msg });
            assert(retry_spec(m1, uri, kind) == (
                stopped_model(ClientModel { retry_counts: rc1, ..m1 }),
                FailStep::Report("retries exhausted for "@ + uri@),
            ));
            return r;
        }
        let key = self.retry_counts[j].0.clone();
        self.retry_counts.set(j, (key, c + 1));
        assert(self@ == (ClientModel {
            retry_counts: rc1.update(sj, (rc1[sj].0, (sc + 1) as u32)),
            ..m1
        }));
        self.request(kind)
    }

    /// A playlist from `url` came in, with what became of it; see [`playlist_spec`].
    pub fn playlist_loaded(&mut self, url: String, outcome: PlaylistOutcome) -> (r: Vec<HlsAction>)
        requires
            model_wf(old(self)@),
        ensures
            model_wf(final(self)@),
            (final(self)@, r@) == playlist_spec(old(self)@, url, outcome),
    {
        if self.stopped {
            return Vec::new();
        }
        let is_master = str_is(&self.master_url, url.as_str());
        self.drop_playlist_loads(url.as_str(), is_master);
        match outcome {
            PlaylistOutcome::Failed(e) => self.stop_with_error(e),
            PlaylistOutcome::Master(Err(e)) => self.stop_with_error(e),
            PlaylistOutcome::Master(Ok(u)) => {
                let ghost m1 = self@;
                self.selected_variant = Some(u.clone());
                assert(self@.inflight == m1.inflight && self@.epoch == m1.epoch);
                let mut a = self.bump_epoch();
                let mut b = self.request(
                    ActionKind::LoadPlaylist { url: u, is_master: false, blocking: false },
                );
                a.append(&mut b);
                a
            },
            PlaylistOutcome::Media(pl) => {
                let reload = match &self.media_url {
                    Some(x) => str_is(x, url.as_str()),
                    None => false,
                };
                let ghost m1 = self@;
                if reload {
                    let (seg, part) = resume_position(
                        &pl,
                        self.last_msn,
                        self.last_part_msn,
                        self.last_part_index,
                    );
                    self.next_segment_index = seg;
                    self.next_part_index = part;
                } else {
                    self.next_segment_index = 0;
                    self.next_part_index = 0;
                    self.last_msn = None;
                    self.last_part_msn = None;
                    self.last_part_index = None;
                }
                self.media = Some(pl);
                self.media_url = Some(url);
                assert(self@.inflight == m1.inflight && self@.epoch == m1.epoch);
                let mut a = if reload {
                    Vec::new()
                } else {
                    self.bump_epoch()
                };
                let mut b = self.schedule_downloads();
                a.append(&mut b);
                a
            },
        }
    }
}

} // verus!
