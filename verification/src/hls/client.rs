//! Requests and events of the Sans-I/O HLS client.

use vstd::prelude::*;

use crate::hls::error::HlsError;
use crate::hls::media::{MediaPlaylist, Part, Segment};
use crate::hls::model::ByteRange;
use crate::hls::parser::str_is;

verus! {

/// Request issued by the client.
#[derive(Debug, Clone, PartialEq, Eq)]
pub struct HlsAction {
    pub epoch: u64,
    pub kind: ActionKind,
}

/// What the client asks its driver to do.
#[derive(Debug, Clone, PartialEq, Eq)]
pub enum ActionKind {
    LoadPlaylist { url: String, is_master: bool, blocking: bool },
    LoadSegment { uri: String, byte_range: Option<ByteRange>, discontinuity: bool },
    LoadPart { uri: String, byte_range: Option<ByteRange> },
    /// Cancel all requests from an older epoch.
    CancelEpoch { epoch: u64 },
    /// Wait before the next poll.
    Wait { duration_ms: u64 },
    /// Report a terminal error to the caller.
    ReportError { error: HlsError },
}

impl ActionKind {
    /// A copy of the request.
    pub fn copy(&self) -> (k: Self)
        ensures
            k == *self,
    {
        match self {
            ActionKind::LoadPlaylist { url, is_master, blocking } => ActionKind::LoadPlaylist {
                url: url.clone(),
                is_master: *is_master,
                blocking: *blocking,
            },
            ActionKind::LoadSegment { uri, byte_range, discontinuity } => ActionKind::LoadSegment {
                uri: uri.clone(),
                byte_range: *byte_range,
                discontinuity: *discontinuity,
            },
            ActionKind::LoadPart { uri, byte_range } => ActionKind::LoadPart {
                uri: uri.clone(),
                byte_range: *byte_range,
            },
            ActionKind::CancelEpoch { epoch } => ActionKind::CancelEpoch { epoch: *epoch },
            ActionKind::Wait { duration_ms } => ActionKind::Wait { duration_ms: *duration_ms },
            ActionKind::ReportError { error } => ActionKind::ReportError { error: error.copy() },
        }
    }
}

/// Incoming event into the client.
#[derive(Debug, Clone)]
pub enum HlsEvent {
    /// Bytes of a playlist were received.
    PlaylistLoaded { url: String, body: Vec<u8> },
    /// A segment or part download succeeded.
    ResourceLoaded { uri: String, body: Vec<u8>, epoch: u64 },
    /// A request failed and may be retried.
    RequestFailed { uri: String, retryable: bool, epoch: u64 },
    /// Drive the live reload clock forward.
    Tick { now_ms: u64 },
    /// Jump to a target time in a VOD or finished EVENT playlist.
    Seek { time_ms: u64 },
    /// Stop the client.
    Stop,
}

/// The URI a loading action fetches; other actions fetch none.
pub fn action_uri(kind: &ActionKind) -> (r: Option<&str>)
    ensures
        match kind {
            ActionKind::LoadPlaylist { url, .. } => r matches Some(s) && s@ == url@,
            ActionKind::LoadSegment { uri, .. } => r matches Some(s) && s@ == uri@,
            ActionKind::LoadPart { uri, .. } => r matches Some(s) && s@ == uri@,
            _ => r is None,
        },
{
    match kind {
        ActionKind::LoadPlaylist { url, .. } => Some(url.as_str()),
        ActionKind::LoadSegment { uri, .. } => Some(uri.as_str()),
        ActionKind::LoadPart { uri, .. } => Some(uri.as_str()),
        _ => None,
    }
}

/// The first segment of `media` whose URI is `uri`, with its index.
pub fn find_segment<'a>(media: &'a Option<MediaPlaylist>, uri: &str) -> (r: Option<
    (usize, &'a Segment),
>)
    ensures
        media is None ==> r is None,
        media matches Some(m) ==> match r {
                Some((i, s)) => {
                    &&& i < m.segments@.len()
                    &&& *s == m.segments@[i as int]
                    &&& s.uri@ == uri@
                    &&& forall|j: int| 0 <= j < i ==> (#[trigger] m.segments@[j]).uri@ != uri@
                },
                None => forall|j: int|
                    0 <= j < m.segments@.len() ==> (#[trigger] m.segments@[j]).uri@ != uri@,
            },
{
    let m = match media {
        Some(m) => m,
        None => {
            return None;
        },
    };
    let mut i: usize = 0;
    while i < m.segments.len()
        invariant
            *media == Some(*m),
            i <= m.segments@.len(),
            forall|j: int| 0 <= j < i ==> (#[trigger] m.segments@[j]).uri@ != uri@,
        decreases m.segments@.len() - i,
    {
        if str_is(&m.segments[i].uri, uri) {
            return Some((i, &m.segments[i]));
        }
        i += 1;
    }
    None
}

/// `(segment, part)` comes before `(segment2, part2)` in playlist order.
pub open spec fn part_before(si: int, pi: int, si2: int, pi2: int) -> bool {
    si < si2 || (si == si2 && pi < pi2)
}

/// The first part of `media`, in playlist order, whose URI is `uri`: the
/// indexes of its segment and of the part in it, the part and the segment.
pub fn find_part<'a>(media: &'a Option<MediaPlaylist>, uri: &str) -> (r: Option<
    (usize, usize, &'a Part, &'a Segment),
>)
    ensures
        media is None ==> r is None,
        media matches Some(m) ==> match r {
                Some((si, pi, p, s)) => {
                    &&& si < m.segments@.len()
                    &&& *s == m.segments@[si as int]
                    &&& pi < s.parts@.len()
                    &&& *p == s.parts@[pi as int]
                    &&& p.uri@ == uri@
                    &&& forall|j: int, k: int|
                        0 <= j < m.segments@.len() && 0 <= k < m.segments@[j].parts@.len()
                            && part_before(j, k, si as int, pi as int) ==> (
                        #[trigger] m.segments@[j].parts@[k]).uri@ != uri@
                },
                None => forall|j: int, k: int|
                    0 <= j < m.segments@.len() && 0 <= k < m.segments@[j].parts@.len() ==> (
                    #[trigger] m.segments@[j].parts@[k]).uri@ != uri@,
            },
{
    let m = match media {
        Some(m) => m,
        None => {
            return None;
        },
    };
    let mut si: usize = 0;
    while si < m.segments.len()
        invariant
            *media == Some(*m),
            si <= m.segments@.len(),
            forall|j: int, k: int|
                0 <= j < si && 0 <= k < m.segments@[j].parts@.len() ==> (
                #[trigger] m.segments@[j].parts@[k]).uri@ != uri@,
        decreases m.segments@.len() - si,
    {
        let seg = &m.segments[si];
        let mut pi: usize = 0;
        while pi < seg.parts.len()
            invariant
                *media == Some(*m),
                si < m.segments@.len(),
                *seg == m.segments@[si as int],
                pi <= seg.parts@.len(),
                forall|j: int, k: int|
                    0 <= j < si && 0 <= k < m.segments@[j].parts@.len() ==> (
                    #[trigger] m.segments@[j].parts@[k]).uri@ != uri@,
                forall|k: int| 0 <= k < pi ==> (#[trigger] seg.parts@[k]).uri@ != uri@,
            decreases seg.parts@.len() - pi,
        {
            if str_is(&seg.parts[pi].uri, uri) {
                return Some((si, pi, &seg.parts[pi], seg));
            }
            pi += 1;
        }
        si += 1;
    }
    None
}

/// The index of the first of `segs` with media sequence `msn`.
pub open spec fn first_with_msn(segs: Seq<Segment>, msn: u64) -> Option<int>
    decreases segs.len(),
{
    if segs.len() == 0 {
        None
    } else {
        match first_with_msn(segs.drop_last(), msn) {
            Some(i) => Some(i),
            None => if segs.last().media_sequence == msn {
                Some(segs.len() - 1)
            } else {
                None
            },
        }
    }
}

/// The index of the first of `segs` with a media sequence above `msn`.
pub open spec fn first_after_msn(segs: Seq<Segment>, msn: u64) -> Option<int>
    decreases segs.len(),
{
    if segs.len() == 0 {
        None
    } else {
        match first_after_msn(segs.drop_last(), msn) {
            Some(i) => Some(i),
            None => if segs.last().media_sequence > msn {
                Some(segs.len() - 1)
            } else {
                None
            },
        }
    }
}

/// Where to resume in reloaded segments `segs`: after the last part loaded
/// when its segment is still listed; else at the first segment after the
/// last one loaded; else from the start.
pub open spec fn resume_spec(
    segs: Seq<Segment>,
    last_msn: Option<u64>,
    last_part_msn: Option<u64>,
    last_part_index: Option<usize>,
) -> (int, int) {
    let part_seg = match last_part_msn {
        Some(pm) => first_with_msn(segs, pm),
        None => None,
    };
    match part_seg {
        Some(si) => {
            let next_part = match last_part_index {
                Some(i) => i + 1,
                None => 0,
            };
            if next_part < segs[si].parts@.len() {
                (si, next_part)
            } else if si < segs.len() - 1 {
                (si + 1, 0)
            } else {
                (segs.len() as int, 0)
            }
        },
        None => match last_msn {
            Some(m) => match first_after_msn(segs, m) {
                Some(i) => (i, 0),
                None => (segs.len() as int, 0),
            },
            None => (0, 0),
        },
    }
}

proof fn lemma_first_with_msn(segs: Seq<Segment>, msn: u64, i: int)
    requires
        0 <= i <= segs.len(),
        forall|j: int| 0 <= j < i ==> (#[trigger] segs[j]).media_sequence != msn,
    ensures
        first_with_msn(segs.subrange(0, i), msn) is None,
    decreases i,
{
    if i > 0 {
        assert(segs.subrange(0, i).drop_last() =~= segs.subrange(0, i - 1));
        lemma_first_with_msn(segs, msn, i - 1);
    }
}

proof fn lemma_first_found(segs: Seq<Segment>, i: int, found: Option<int>, k: int)
    requires
        0 <= i < k <= segs.len(),
        first_with_msn(segs.subrange(0, i + 1), segs[i].media_sequence) == Some(i),
    ensures
        first_with_msn(segs.subrange(0, k), segs[i].media_sequence) == Some(i),
    decreases k - i,
{
    if k > i + 1 {
        lemma_first_found(segs, i, found, k - 1);
        assert(segs.subrange(0, k).drop_last() =~= segs.subrange(0, k - 1));
    }
}

proof fn lemma_first_after_found(segs: Seq<Segment>, msn: u64, i: int, k: int)
    requires
        0 <= i < k <= segs.len(),
        first_after_msn(segs.subrange(0, i + 1), msn) == Some(i),
    ensures
        first_after_msn(segs.subrange(0, k), msn) == Some(i),
    decreases k - i,
{
    if k > i + 1 {
        lemma_first_after_found(segs, msn, i, k - 1);
        assert(segs.subrange(0, k).drop_last() =~= segs.subrange(0, k - 1));
    }
}

proof fn lemma_first_after_none(segs: Seq<Segment>, msn: u64, i: int)
    requires
        0 <= i <= segs.len(),
        forall|j: int| 0 <= j < i ==> (#[trigger] segs[j]).media_sequence <= msn,
    ensures
        first_after_msn(segs.subrange(0, i), msn) is None,
    decreases i,
{
    if i > 0 {
        assert(segs.subrange(0, i).drop_last() =~= segs.subrange(0, i - 1));
        lemma_first_after_none(segs, msn, i - 1);
    }
}

fn index_with_msn(segs: &Vec<Segment>, msn: u64) -> (r: Option<usize>)
    ensures
        match first_with_msn(segs@, msn) {
            Some(i) => r matches Some(j) && j as int == i && 0 <= i < segs@.len(),
            None => r is None,
        },
{
    let mut i: usize = 0;
    while i < segs.len()
        invariant
            i <= segs@.len(),
            forall|j: int| 0 <= j < i ==> (#[trigger] segs@[j]).media_sequence != msn,
        decreases segs@.len() - i,
    {
        if segs[i].media_sequence == msn {
            proof {
                lemma_first_with_msn(segs@, msn, i as int);
                assert(segs@.subrange(0, i + 1).drop_last() =~= segs@.subrange(0, i as int));
                lemma_first_found(segs@, i as int, None, segs@.len() as int);
                assert(segs@.subrange(0, segs@.len() as int) =~= segs@);
            }
            return Some(i);
        }
        i += 1;
    }
    proof {
        lemma_first_with_msn(segs@, msn, segs@.len() as int);
        assert(segs@.subrange(0, segs@.len() as int) =~= segs@);
    }
    None
}

fn index_after_msn(segs: &Vec<Segment>, msn: u64) -> (r: Option<usize>)
    ensures
        match first_after_msn(segs@, msn) {
            Some(i) => r matches Some(j) && j as int == i && 0 <= i < segs@.len(),
            None => r is None,
        },
{
    let mut i: usize = 0;
    while i < segs.len()
        invariant
            i <= segs@.len(),
            forall|j: int| 0 <= j < i ==> (#[trigger] segs@[j]).media_sequence <= msn,
        decreases segs@.len() - i,
    {
        if segs[i].media_sequence > msn {
            proof {
                lemma_first_after_none(segs@, msn, i as int);
                assert(segs@.subrange(0, i + 1).drop_last() =~= segs@.subrange(0, i as int));
                lemma_first_after_found(segs@, msn, i as int, segs@.len() as int);
                assert(segs@.subrange(0, segs@.len() as int) =~= segs@);
            }
            return Some(i);
        }
        i += 1;
    }
    proof {
        lemma_first_after_none(segs@, msn, segs@.len() as int);
        assert(segs@.subrange(0, segs@.len() as int) =~= segs@);
    }
    None
}

/// Where to resume downloading in a reloaded playlist; see [`resume_spec`].
pub fn resume_position(
    media: &MediaPlaylist,
    last_msn: Option<u64>,
    last_part_msn: Option<u64>,
    last_part_index: Option<usize>,
) -> (r: (usize, usize))
    requires
        last_part_index != Some(usize::MAX),
    ensures
        (r.0 as int, r.1 as int) == resume_spec(
            media.segments@,
            last_msn,
            last_part_msn,
            last_part_index,
        ),
{
    let segs = &media.segments;
    let part_seg = match last_part_msn {
        Some(pm) => index_with_msn(segs, pm),
        None => None,
    };
    let ghost spec_seg = match last_part_msn {
        Some(pm) => first_with_msn(segs@, pm),
        None => None,
    };
    assert(match spec_seg {
        Some(k) => part_seg matches Some(j) && j as int == k,
        None => part_seg is None,
    });
    if let Some(si) = part_seg {
        let next_part = match last_part_index {
            Some(i) => i + 1,
            None => 0,
        };
        if next_part < segs[si].parts.len() {
            return (si, next_part);
        } else if si < segs.len() - 1 {
            return (si + 1, 0);
        } else {
            return (segs.len(), 0);
        }
    }
    if let Some(msn) = last_msn {
        return match index_after_msn(segs, msn) {
            Some(i) => (i, 0),
            None => (segs.len(), 0),
        };
    }
    (0, 0)
}

/// The URI a loading action fetches.
pub open spec fn kind_uri(k: ActionKind) -> Option<Seq<char>> {
    match k {
        ActionKind::LoadPlaylist { url, .. } => Some(url@),
        ActionKind::LoadSegment { uri, .. } => Some(uri@),
        ActionKind::LoadPart { uri, .. } => Some(uri@),
        _ => None,
    }
}

/// Some request in `inflight` fetches `uri`.
pub open spec fn is_busy(inflight: Seq<ActionKind>, uri: Seq<char>) -> bool {
    exists|i: int| 0 <= i < inflight.len() && kind_uri(#[trigger] inflight[i]) == Some(uri)
}

/// Whether a request in `inflight` already fetches `uri`.
pub fn is_inflight(inflight: &Vec<ActionKind>, uri: &str) -> (b: bool)
    ensures
        b == is_busy(inflight@, uri@),
{
    let mut i: usize = 0;
    while i < inflight.len()
        invariant
            i <= inflight@.len(),
            forall|j: int| 0 <= j < i ==> kind_uri(#[trigger] inflight@[j]) != Some(uri@),
        decreases inflight@.len() - i,
    {
        let hit = match &inflight[i] {
            ActionKind::LoadPlaylist { url, .. } => str_is(url, uri),
            ActionKind::LoadSegment { uri: u, .. } => str_is(u, uri),
            ActionKind::LoadPart { uri: u, .. } => str_is(u, uri),
            _ => false,
        };
        if hit {
            return true;
        }
        i += 1;
    }
    false
}

/// What a download step asks for: a part of a segment, or a whole segment.
pub enum Pick {
    Part(int, int),
    Segment(int),
}

/// The next download from position `(s, p)` of `segs`: the next usable
/// part of the current segment (independent, not a gap, not already in
/// flight), else the segment itself unless it is in flight, in which case
/// the walk goes on with the next segment. With the position after it.
pub open spec fn next_pick(segs: Seq<Segment>, s: int, p: int, inflight: Seq<ActionKind>) -> (
    Option<Pick>,
    int,
    int,
)
    decreases segs.len() - s, if 0 <= s < segs.len() {
        segs[s].parts@.len() - p
    } else {
        0
    },
{
    if s < 0 || s >= segs.len() {
        (None, s, p)
    } else if 0 <= p < segs[s].parts@.len() {
        let part = segs[s].parts@[p];
        if !part.independent || part.gap || is_busy(inflight, part.uri@) {
            next_pick(segs, s, p + 1, inflight)
        } else {
            (Some(Pick::Part(s, p)), s, p + 1)
        }
    } else if is_busy(inflight, segs[s].uri@) {
        next_pick(segs, s + 1, 0, inflight)
    } else {
        (Some(Pick::Segment(s)), s + 1, 0)
    }
}

/// The request for what `pick` names in `segs`.
pub open spec fn pick_matches(segs: Seq<Segment>, pick: Option<Pick>, kind: Option<ActionKind>) -> bool {
    match pick {
        None => kind is None,
        Some(Pick::Part(s, p)) => kind matches Some(ActionKind::LoadPart { uri, byte_range }) && uri@
            == segs[s].parts@[p].uri@ && byte_range == segs[s].parts@[p].byte_range,
        Some(Pick::Segment(s)) => kind matches Some(
            ActionKind::LoadSegment { uri, byte_range, discontinuity },
        ) && uri@ == segs[s].uri@ && byte_range == segs[s].byte_range && discontinuity
            == segs[s].discontinuity,
    }
}

/// The request for what `pick` names in `segs`, exactly.
pub open spec fn pick_kind(segs: Seq<Segment>, pick: Option<Pick>) -> Option<ActionKind> {
    match pick {
        None => None,
        Some(Pick::Part(s, p)) => Some(
            ActionKind::LoadPart {
                uri: segs[s].parts@[p].uri,
                byte_range: segs[s].parts@[p].byte_range,
            },
        ),
        Some(Pick::Segment(s)) => Some(
            ActionKind::LoadSegment {
                uri: segs[s].uri,
                byte_range: segs[s].byte_range,
                discontinuity: segs[s].discontinuity,
            },
        ),
    }
}

/// One download step from segment `seg`, part `part` of `media`, skipping
/// what `inflight` already fetches: the request to make, if any, and the
/// position after it.
pub fn next_download(media: &MediaPlaylist, seg: usize, part: usize, inflight: &Vec<ActionKind>) -> (r: (
    Option<ActionKind>,
    usize,
    usize,
))
    ensures
        ({
            let (pick, s, p) = next_pick(media.segments@, seg as int, part as int, inflight@);
            &&& pick_matches(media.segments@, pick, r.0)
            &&& r.0 == pick_kind(media.segments@, pick)
            &&& r.1 as int == s
            &&& r.2 as int == p
        }),
{
    let segs = &media.segments;
    let mut s = seg;
    let mut p = part;
    while s < segs.len()
        invariant
            next_pick(segs@, s as int, p as int, inflight@) == next_pick(
                segs@,
                seg as int,
                part as int,
                inflight@,
            ),
            segs@ == media.segments@,
        decreases segs@.len() - s, segs@[s as int].parts@.len() - p,
    {
        let sg = &segs[s];
        if p < sg.parts.len() {
            let pt = &sg.parts[p];
            if !pt.independent || pt.gap || is_inflight(inflight, pt.uri.as_str()) {
                p += 1;
            } else {
                let kind = ActionKind::LoadPart { uri: pt.uri.clone(), byte_range: pt.byte_range };
                return (Some(kind), s, p + 1);
            }
        } else if is_inflight(inflight, sg.uri.as_str()) {
            s += 1;
            p = 0;
        } else {
            let kind = ActionKind::LoadSegment {
                uri: sg.uri.clone(),
                byte_range: sg.byte_range,
                discontinuity: sg.discontinuity,
            };
            return (Some(kind), s + 1, 0);
        }
    }
    (None, s, p)
}

} // verus!
