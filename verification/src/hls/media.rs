//! Media playlists: segments, partial segments and the tags around them.
//!
//! Durations and other decimal quantities are kept as the text the playlist
//! gives them, in the order they were read, so that they can be converted to
//! numbers outside this library.

use vstd::prelude::*;

use crate::hls::error::{HlsError, HlsErrorView};
use crate::hls::model::{
    ByteRange, Key, PlaylistType, PreloadHint, PreloadHintType, RenditionReport, SegmentMap, Skip,
    opt_str,
};
use crate::hls::parser::{
    AttrMap, attr_entries, attr_error_view, byte_range_spec, clone_attr, comma_pieces,
    find_last_slash, find_sep, flag_attr, is_yes, lemma_find_from_bounds, lookup,
    number_of, opt_attr, parse_attributes, parse_byte_range_raw, parse_key, resolve_slices_badly,
    resolve_spec, resolve_url, split_commas, str_is, strings_view, utf8_width,
};
use crate::hls::text::{
    find_char, find_from, str_chars, substr, trim, trim_bounds, unsigned_value,
};

verus! {

/// Longest line accepted, in bytes.
pub const MAX_LINE_LEN: usize = 16_384;

/// Most media segments in a playlist.
pub const MAX_SEGMENTS: usize = 100_000;

/// Most partial segments in a playlist.
pub const MAX_PARTS: usize = 1_000_000;

/// Why a playlist parse stopped before its end.
#[derive(Debug, Clone, PartialEq, Eq)]
pub enum ParseStop {
    /// The playlist's text is malformed or over a limit.
    Error(HlsError),
    /// A relative URI had to be resolved against a base URI whose last `/`
    /// follows a multi-byte character too closely to be compared as a
    /// string slice.
    UnsliceableBase,
}

/// What a [`ParseStop`] holds.
pub enum StopView {
    Error(HlsErrorView),
    UnsliceableBase,
}

impl View for ParseStop {
    type V = StopView;

    open spec fn view(&self) -> StopView {
        match self {
            ParseStop::Error(e) => StopView::Error(e@),
            ParseStop::UnsliceableBase => StopView::UnsliceableBase,
        }
    }
}

/// A partial segment (`#EXT-X-PART`).
#[derive(Debug, Clone, PartialEq, Eq)]
pub struct Part {
    /// The `DURATION` attribute's text.
    pub duration: String,
    pub uri: String,
    pub independent: bool,
    pub gap: bool,
    pub byte_range: Option<ByteRange>,
}

/// A media segment.
#[derive(Debug, Clone, PartialEq, Eq)]
pub struct Segment {
    /// The duration text of the segment's `#EXTINF`, if it had one.
    pub duration: Option<String>,
    pub title: Option<String>,
    pub uri: String,
    pub byte_range: Option<ByteRange>,
    pub map: Option<SegmentMap>,
    pub key: Option<Key>,
    pub discontinuity: bool,
    pub program_date_time: Option<String>,
    pub gaps: u32,
    pub parts: Vec<Part>,
    pub independent: bool,
    pub media_sequence: u64,
}

/// Partial segment information (`#EXT-X-PART-INF`).
#[derive(Debug, Clone, PartialEq, Eq)]
pub struct PartInf {
    /// The `PART-TARGET` attribute's text.
    pub part_target: String,
}

/// Server control (`#EXT-X-SERVER-CONTROL`); the hold-back and skip
/// durations are the attributes' texts.
#[derive(Debug, Clone, PartialEq, Eq)]
pub struct ServerControl {
    pub can_block_reload: bool,
    pub hold_back: Option<String>,
    pub part_hold_back: Option<String>,
    pub can_skip_until: Option<String>,
    pub can_skip_dateranges: bool,
}

/// A media playlist, its target duration as text.
#[derive(Debug, Clone, PartialEq, Eq)]
pub struct MediaPlaylist {
    pub target_duration: Option<String>,
    pub media_sequence: u64,
    pub discontinuity_sequence: u64,
    pub playlist_type: Option<PlaylistType>,
    pub end_list: bool,
    pub i_frames_only: bool,
    pub independent_segments: bool,
    pub segments: Vec<Segment>,
    pub part_inf: Option<PartInf>,
    pub server_control: Option<ServerControl>,
    pub preload_hint: Option<PreloadHint>,
    pub skip: Option<Skip>,
    pub rendition_reports: Vec<RenditionReport>,
}

/// What a [`Key`] holds.
pub struct KeyView {
    pub method: Seq<char>,
    pub uri: Option<Seq<char>>,
    pub iv: Option<Seq<char>>,
    pub key_format: Seq<char>,
    pub key_format_versions: Seq<char>,
}

impl View for Key {
    type V = KeyView;

    open spec fn view(&self) -> KeyView {
        KeyView {
            method: self.method@,
            uri: opt_str(self.uri),
            iv: opt_str(self.iv),
            key_format: self.key_format@,
            key_format_versions: self.key_format_versions@,
        }
    }
}

/// What a [`SegmentMap`] holds.
pub struct MapView {
    pub uri: Seq<char>,
    pub byte_range: Option<ByteRange>,
}

impl View for SegmentMap {
    type V = MapView;

    open spec fn view(&self) -> MapView {
        MapView { uri: self.uri@, byte_range: self.byte_range }
    }
}

/// What a [`PreloadHint`] holds.
pub struct HintView {
    pub kind: PreloadHintType,
    pub uri: Seq<char>,
    pub byte_range: Option<ByteRange>,
}

impl View for PreloadHint {
    type V = HintView;

    open spec fn view(&self) -> HintView {
        HintView { kind: self.kind, uri: self.uri@, byte_range: self.byte_range }
    }
}

/// What a [`Skip`] holds.
pub struct SkipView {
    pub skipped_segments: u32,
    pub recently_removed_dateranges: Seq<Seq<char>>,
}

impl View for Skip {
    type V = SkipView;

    open spec fn view(&self) -> SkipView {
        SkipView {
            skipped_segments: self.skipped_segments,
            recently_removed_dateranges: strings_view(self.recently_removed_dateranges@),
        }
    }
}

/// What a [`RenditionReport`] holds.
pub struct ReportView {
    pub uri: Seq<char>,
    pub last_msn: u64,
    pub last_part: Option<u64>,
}

impl View for RenditionReport {
    type V = ReportView;

    open spec fn view(&self) -> ReportView {
        ReportView { uri: self.uri@, last_msn: self.last_msn, last_part: self.last_part }
    }
}

/// What a [`Part`] holds.
pub struct PartView {
    pub duration: Seq<char>,
    pub uri: Seq<char>,
    pub independent: bool,
    pub gap: bool,
    pub byte_range: Option<ByteRange>,
}

impl View for Part {
    type V = PartView;

    open spec fn view(&self) -> PartView {
        PartView {
            duration: self.duration@,
            uri: self.uri@,
            independent: self.independent,
            gap: self.gap,
            byte_range: self.byte_range,
        }
    }
}

/// The view of an optional exec value.
pub open spec fn opt_view<T: View>(o: Option<T>) -> Option<T::V> {
    match o {
        Some(t) => Some(t@),
        None => None,
    }
}

/// What a [`Segment`] holds.
pub struct SegmentView {
    pub duration: Option<Seq<char>>,
    pub title: Option<Seq<char>>,
    pub uri: Seq<char>,
    pub byte_range: Option<ByteRange>,
    pub map: Option<MapView>,
    pub key: Option<KeyView>,
    pub discontinuity: bool,
    pub program_date_time: Option<Seq<char>>,
    pub gaps: u32,
    pub parts: Seq<PartView>,
    pub independent: bool,
    pub media_sequence: u64,
}

impl View for Segment {
    type V = SegmentView;

    open spec fn view(&self) -> SegmentView {
        SegmentView {
            duration: opt_str(self.duration),
            title: opt_str(self.title),
            uri: self.uri@,
            byte_range: self.byte_range,
            map: opt_view(self.map),
            key: opt_view(self.key),
            discontinuity: self.discontinuity,
            program_date_time: opt_str(self.program_date_time),
            gaps: self.gaps,
            parts: self.parts@.map_values(|p: Part| p@),
            independent: self.independent,
            media_sequence: self.media_sequence,
        }
    }
}

/// What a [`ServerControl`] holds.
pub struct ServerControlView {
    pub can_block_reload: bool,
    pub hold_back: Option<Seq<char>>,
    pub part_hold_back: Option<Seq<char>>,
    pub can_skip_until: Option<Seq<char>>,
    pub can_skip_dateranges: bool,
}

impl View for ServerControl {
    type V = ServerControlView;

    open spec fn view(&self) -> ServerControlView {
        ServerControlView {
            can_block_reload: self.can_block_reload,
            hold_back: opt_str(self.hold_back),
            part_hold_back: opt_str(self.part_hold_back),
            can_skip_until: opt_str(self.can_skip_until),
            can_skip_dateranges: self.can_skip_dateranges,
        }
    }
}

/// What a [`MediaPlaylist`] holds; `part_target` stands for its part
/// information.
pub struct MediaView {
    pub target_duration: Option<Seq<char>>,
    pub media_sequence: u64,
    pub discontinuity_sequence: u64,
    pub playlist_type: Option<PlaylistType>,
    pub end_list: bool,
    pub i_frames_only: bool,
    pub independent_segments: bool,
    pub segments: Seq<SegmentView>,
    pub part_target: Option<Seq<char>>,
    pub server_control: Option<ServerControlView>,
    pub preload_hint: Option<HintView>,
    pub skip: Option<SkipView>,
    pub rendition_reports: Seq<ReportView>,
}

impl View for MediaPlaylist {
    type V = MediaView;

    open spec fn view(&self) -> MediaView {
        MediaView {
            target_duration: opt_str(self.target_duration),
            media_sequence: self.media_sequence,
            discontinuity_sequence: self.discontinuity_sequence,
            playlist_type: self.playlist_type,
            end_list: self.end_list,
            i_frames_only: self.i_frames_only,
            independent_segments: self.independent_segments,
            segments: self.segments@.map_values(|s: Segment| s@),
            part_target: match self.part_inf {
                Some(p) => Some(p.part_target@),
                None => None,
            },
            server_control: opt_view(self.server_control),
            preload_hint: opt_view(self.preload_hint),
            skip: opt_view(self.skip),
            rendition_reports: self.rendition_reports@.map_values(|r: RenditionReport| r@),
        }
    }
}

/// A segment with nothing set yet.
pub open spec fn blank_segment() -> SegmentView {
    SegmentView {
        duration: None,
        title: None,
        uri: Seq::empty(),
        byte_range: None,
        map: None,
        key: None,
        discontinuity: false,
        program_date_time: None,
        gaps: 0,
        parts: Seq::empty(),
        independent: false,
        media_sequence: 0,
    }
}

/// A playlist with nothing set yet.
pub open spec fn blank_media() -> MediaView {
    MediaView {
        target_duration: None,
        media_sequence: 0,
        discontinuity_sequence: 0,
        playlist_type: None,
        end_list: false,
        i_frames_only: false,
        independent_segments: false,
        segments: Seq::empty(),
        part_target: None,
        server_control: None,
        preload_hint: None,
        skip: None,
        rendition_reports: Seq::empty(),
    }
}

/// Where a media playlist parse stands between lines: the playlist so far,
/// the segment being described, the segments and parts counted, and the
/// media sequence number the next segment gets.
pub struct MediaState {
    pub pl: MediaView,
    pub cur: SegmentView,
    pub segment_count: nat,
    pub part_count: nat,
    pub msn: u64,
}

/// The state before the first line.
pub open spec fn media_start() -> MediaState {
    MediaState {
        pl: blank_media(),
        cur: blank_segment(),
        segment_count: 0,
        part_count: 0,
        msn: 0,
    }
}

/// `l` begins with `p`.
pub open spec fn starts(l: Seq<char>, p: Seq<char>) -> bool {
    p.len() <= l.len() && l.subrange(0, p.len() as int) == p
}

/// What follows the prefix `p` in `l`.
pub open spec fn after(l: Seq<char>, p: Seq<char>) -> Seq<char> {
    l.subrange(p.len() as int, l.len() as int)
}

/// The number of bytes `s` takes in UTF-8.
pub open spec fn utf8_len(s: Seq<char>) -> int
    decreases s.len(),
{
    if s.len() == 0 {
        0
    } else {
        utf8_len(s.drop_last()) + utf8_width(s.last())
    }
}

/// `uri` resolved against `base`, or why that stops the parse.
pub open spec fn resolve_or_stop(base: Seq<char>, uri: Seq<char>) -> Result<Seq<char>, StopView> {
    if resolve_slices_badly(base, uri) {
        Err(StopView::UnsliceableBase)
    } else {
        match resolve_spec(base, uri) {
            Some(v) => Ok(v),
            None => Err(StopView::Error(HlsErrorView::Malformed { line: 0, context: "empty URI"@ })),
        }
    }
}

/// An error that stops the parse.
pub open spec fn stop<A>(e: HlsErrorView) -> Result<A, StopView> {
    Err(StopView::Error(e))
}

/// A flag attribute: present and `YES`, ignoring ASCII case.
pub open spec fn flag_in(es: Seq<(Seq<char>, Seq<char>)>, key: Seq<char>) -> bool {
    match lookup(es, key) {
        Some(v) => is_yes(v),
        None => false,
    }
}

/// Attribute `key` read as a number of at most `max`.
pub open spec fn number_in(es: Seq<(Seq<char>, Seq<char>)>, key: Seq<char>, max: int) -> Result<
    int,
    StopView,
> {
    match lookup(es, key) {
        None => stop(HlsErrorView::MissingTag { tag: key }),
        Some(v) => match unsigned_value(v, max) {
            Some(n) => Ok(n),
            None => stop(HlsErrorView::InvalidAttribute { tag: ""@, key, value: v }),
        },
    }
}

/// The optional attribute `key` read as a number of at most `max`.
pub open spec fn optional_number_in(es: Seq<(Seq<char>, Seq<char>)>, key: Seq<char>, max: int) -> Result<
    Option<int>,
    StopView,
> {
    match lookup(es, key) {
        None => Ok(None),
        Some(v) => match unsigned_value(v, max) {
            Some(n) => Ok(Some(n)),
            None => stop(HlsErrorView::InvalidAttribute { tag: ""@, key, value: v }),
        },
    }
}

/// The optional `BYTERANGE` attribute.
pub open spec fn range_in(es: Seq<(Seq<char>, Seq<char>)>) -> Result<Option<ByteRange>, StopView> {
    match lookup(es, "BYTERANGE"@) {
        None => Ok(None),
        Some(b) => match byte_range_spec(b) {
            Ok(r) => Ok(Some(r)),
            Err(e) => stop(e),
        },
    }
}

/// Attribute `key` as a URI resolved against `base`.
pub open spec fn uri_in(es: Seq<(Seq<char>, Seq<char>)>, key: Seq<char>, base: Seq<char>) -> Result<
    Seq<char>,
    StopView,
> {
    match lookup(es, key) {
        None => stop(HlsErrorView::MissingTag { tag: key }),
        Some(u) => resolve_or_stop(base, u),
    }
}

/// The attribute list of a tag.
pub open spec fn attrs_of(tag: Seq<char>) -> Result<Seq<(Seq<char>, Seq<char>)>, StopView> {
    match attr_entries(tag, 0) {
        Ok(es) => Ok(es),
        Err(k) => stop(attr_error_view(k)),
    }
}

/// An `#EXT-X-MAP` tag.
pub open spec fn map_spec(tag: Seq<char>, base: Seq<char>) -> Result<MapView, StopView> {
    match attrs_of(tag) {
        Err(s) => Err(s),
        Ok(es) => match uri_in(es, "URI"@, base) {
            Err(s) => Err(s),
            Ok(uri) => match range_in(es) {
                Err(s) => Err(s),
                Ok(byte_range) => Ok(MapView { uri, byte_range }),
            },
        },
    }
}

/// An `#EXT-X-KEY` tag.
pub open spec fn key_spec(tag: Seq<char>) -> Result<KeyView, StopView> {
    match attrs_of(tag) {
        Err(s) => Err(s),
        Ok(es) => match lookup(es, "METHOD"@) {
            None => stop(HlsErrorView::MissingTag { tag: "METHOD"@ }),
            Some(method) => Ok(
                KeyView {
                    method,
                    uri: lookup(es, "URI"@),
                    iv: lookup(es, "IV"@),
                    key_format: match lookup(es, "KEYFORMAT"@) {
                        Some(v) => v,
                        None => "identity"@,
                    },
                    key_format_versions: match lookup(es, "KEYFORMATVERSIONS"@) {
                        Some(v) => v,
                        None => "1"@,
                    },
                },
            ),
        },
    }
}

/// An `#EXT-X-PART` tag, with the duration text it gives.
pub open spec fn part_spec(tag: Seq<char>, base: Seq<char>) -> (
    Seq<Seq<char>>,
    Result<PartView, StopView>,
) {
    match attrs_of(tag) {
        Err(s) => (Seq::empty(), Err(s)),
        Ok(es) => match lookup(es, "DURATION"@) {
            None => (Seq::empty(), stop(HlsErrorView::MissingTag { tag: "DURATION"@ })),
            Some(d) => (
                seq![d],
                match uri_in(es, "URI"@, base) {
                    Err(s) => Err(s),
                    Ok(uri) => match range_in(es) {
                        Err(s) => Err(s),
                        Ok(byte_range) => Ok(
                            PartView {
                                duration: d,
                                uri,
                                independent: flag_in(es, "INDEPENDENT"@),
                                gap: flag_in(es, "GAP"@),
                                byte_range,
                            },
                        ),
                    },
                },
            ),
        },
    }
}

/// The texts of the attributes among `keys` that are present, in order.
pub open spec fn present_texts(es: Seq<(Seq<char>, Seq<char>)>, keys: Seq<Seq<char>>) -> Seq<
    Seq<char>,
>
    decreases keys.len(),
{
    if keys.len() == 0 {
        Seq::empty()
    } else {
        let rest = present_texts(es, keys.drop_first());
        match lookup(es, keys[0]) {
            Some(v) => seq![v] + rest,
            None => rest,
        }
    }
}

/// An `#EXT-X-SERVER-CONTROL` tag, with the duration texts it gives.
pub open spec fn server_control_spec(tag: Seq<char>) -> (
    Seq<Seq<char>>,
    Result<ServerControlView, StopView>,
) {
    match attrs_of(tag) {
        Err(s) => (Seq::empty(), Err(s)),
        Ok(es) => (
            present_texts(es, seq!["HOLD-BACK"@, "PART-HOLD-BACK"@, "CAN-SKIP-UNTIL"@]),
            Ok(
                ServerControlView {
                    can_block_reload: flag_in(es, "CAN-BLOCK-RELOAD"@),
                    hold_back: lookup(es, "HOLD-BACK"@),
                    part_hold_back: lookup(es, "PART-HOLD-BACK"@),
                    can_skip_until: lookup(es, "CAN-SKIP-UNTIL"@),
                    can_skip_dateranges: flag_in(es, "CAN-SKIP-DATERANGES"@),
                },
            ),
        ),
    }
}

/// An `#EXT-X-PRELOAD-HINT` tag.
pub open spec fn hint_spec(tag: Seq<char>, base: Seq<char>) -> Result<HintView, StopView> {
    match attrs_of(tag) {
        Err(s) => Err(s),
        Ok(es) => match lookup(es, "TYPE"@) {
            None => stop(HlsErrorView::MissingTag { tag: "TYPE"@ }),
            Some(t) => if t != "PART"@ && t != "MAP"@ {
                stop(
                    HlsErrorView::InvalidAttribute {
                        tag: "#EXT-X-PRELOAD-HINT"@,
                        key: "TYPE"@,
                        value: t,
                    },
                )
            } else {
                match uri_in(es, "URI"@, base) {
                    Err(s) => Err(s),
                    Ok(uri) => match range_in(es) {
                        Err(s) => Err(s),
                        Ok(byte_range) => Ok(
                            HintView {
                                kind: if t == "PART"@ {
                                    PreloadHintType::Part
                                } else {
                                    PreloadHintType::InitMap
                                },
                                uri,
                                byte_range,
                            },
                        ),
                    },
                }
            },
        },
    }
}

/// An `#EXT-X-RENDITION-REPORT` tag.
pub open spec fn report_spec(tag: Seq<char>, base: Seq<char>) -> Result<ReportView, StopView> {
    match attrs_of(tag) {
        Err(s) => Err(s),
        Ok(es) => match uri_in(es, "URI"@, base) {
            Err(s) => Err(s),
            Ok(uri) => match number_in(es, "LAST-MSN"@, u64::MAX as int) {
                Err(s) => Err(s),
                Ok(msn) => match optional_number_in(es, "LAST-PART"@, u64::MAX as int) {
                    Err(s) => Err(s),
                    Ok(part) => Ok(
                        ReportView {
                            uri,
                            last_msn: msn as u64,
                            last_part: match part {
                                Some(p) => Some(p as u64),
                                None => None,
                            },
                        },
                    ),
                },
            },
        },
    }
}

/// An `#EXT-X-SKIP` tag.
pub open spec fn skip_spec(tag: Seq<char>) -> Result<SkipView, StopView> {
    match attrs_of(tag) {
        Err(s) => Err(s),
        Ok(es) => match number_in(es, "SKIPPED-SEGMENTS"@, u32::MAX as int) {
            Err(s) => Err(s),
            Ok(n) => Ok(
                SkipView {
                    skipped_segments: n as u32,
                    recently_removed_dateranges: match lookup(es, "RECENTLY-REMOVED-DATERANGES"@) {
                        Some(v) => comma_pieces(v, 0),
                        None => Seq::empty(),
                    },
                },
            ),
        },
    }
}

/// `n + 1`, held at `u64::MAX`.
pub open spec fn sat_inc(n: u64) -> u64 {
    if n == u64::MAX {
        n
    } else {
        (n + 1) as u64
    }
}

/// `a + b`, held at `u64::MAX`.
pub open spec fn sat_add(a: u64, b: u64) -> u64 {
    if a + b > u64::MAX {
        u64::MAX
    } else {
        (a + b) as u64
    }
}

/// What one line of a media playlist does to the parse, with the decimal
/// texts it gives in order.
pub open spec fn media_line(st: MediaState, raw: Seq<char>, base: Seq<char>) -> (
    Seq<Seq<char>>,
    Result<MediaState, StopView>,
) {
    let none = Seq::<Seq<char>>::empty();
    let line = trim(raw);
    let pl = st.pl;
    let cur = st.cur;
    if utf8_len(raw) > MAX_LINE_LEN {
        (none, stop(HlsErrorView::LimitExceeded { limit: "line length"@ }))
    } else if line.len() == 0 || line == "#EXTM3U"@ {
        (none, Ok(st))
    } else if starts(line, "#EXT-X-TARGETDURATION:"@) {
        let t = trim(after(line, "#EXT-X-TARGETDURATION:"@));
        (seq![t], Ok(MediaState { pl: MediaView { target_duration: Some(t), ..pl }, ..st }))
    } else if starts(line, "#EXT-X-MEDIA-SEQUENCE:"@) {
        let t = trim(after(line, "#EXT-X-MEDIA-SEQUENCE:"@));
        match unsigned_value(t, u64::MAX as int) {
            None => (none, stop(HlsErrorView::InvalidAttribute { tag: ""@, key: ""@, value: t })),
            Some(n) => (
                none,
                Ok(
                    MediaState {
                        pl: MediaView { media_sequence: n as u64, ..pl },
                        msn: n as u64,
                        ..st
                    },
                ),
            ),
        }
    } else if starts(line, "#EXT-X-DISCONTINUITY-SEQUENCE:"@) {
        let t = trim(after(line, "#EXT-X-DISCONTINUITY-SEQUENCE:"@));
        match unsigned_value(t, u64::MAX as int) {
            None => (none, stop(HlsErrorView::InvalidAttribute { tag: ""@, key: ""@, value: t })),
            Some(n) => (
                none,
                Ok(MediaState { pl: MediaView { discontinuity_sequence: n as u64, ..pl }, ..st }),
            ),
        }
    } else if starts(line, "#EXT-X-PLAYLIST-TYPE:"@) {
        let t = trim(after(line, "#EXT-X-PLAYLIST-TYPE:"@));
        if t == "VOD"@ {
            (
                none,
                Ok(MediaState { pl: MediaView { playlist_type: Some(PlaylistType::Vod), ..pl }, ..st }),
            )
        } else if t == "EVENT"@ {
            (
                none,
                Ok(
                    MediaState {
                        pl: MediaView { playlist_type: Some(PlaylistType::Event), ..pl },
                        ..st
                    },
                ),
            )
        } else {
            (
                none,
                stop(
                    HlsErrorView::InvalidAttribute {
                        tag: "#EXT-X-PLAYLIST-TYPE"@,
                        key: "value"@,
                        value: t,
                    },
                ),
            )
        }
    } else if line == "#EXT-X-ENDLIST"@ {
        (none, Ok(MediaState { pl: MediaView { end_list: true, ..pl }, ..st }))
    } else if line == "#EXT-X-I-FRAMES-ONLY"@ {
        (none, Ok(MediaState { pl: MediaView { i_frames_only: true, ..pl }, ..st }))
    } else if line == "#EXT-X-INDEPENDENT-SEGMENTS"@ {
        (none, Ok(MediaState { pl: MediaView { independent_segments: true, ..pl }, ..st }))
    } else if starts(line, "#EXTINF:"@) {
        let tag = after(line, "#EXTINF:"@);
        let comma = find_from(tag, 0, ',');
        let d = trim(tag.subrange(0, comma));
        let title = if comma < tag.len() {
            Some(tag.subrange(comma + 1, tag.len() as int))
        } else {
            None
        };
        (seq![d], Ok(MediaState { cur: SegmentView { duration: Some(d), title, ..cur }, ..st }))
    } else if line == "#EXT-X-DISCONTINUITY"@ {
        (none, Ok(MediaState { cur: SegmentView { discontinuity: true, ..cur }, ..st }))
    } else if starts(line, "#EXT-X-BYTERANGE:"@) {
        match byte_range_spec(trim(after(line, "#EXT-X-BYTERANGE:"@))) {
            Err(e) => (none, stop(e)),
            Ok(r) => (none, Ok(MediaState { cur: SegmentView { byte_range: Some(r), ..cur }, ..st })),
        }
    } else if starts(line, "#EXT-X-MAP:"@) {
        match map_spec(after(line, "#EXT-X-MAP:"@), base) {
            Err(s) => (none, Err(s)),
            Ok(m) => (none, Ok(MediaState { cur: SegmentView { map: Some(m), ..cur }, ..st })),
        }
    } else if starts(line, "#EXT-X-KEY:"@) {
        match key_spec(after(line, "#EXT-X-KEY:"@)) {
            Err(s) => (none, Err(s)),
            Ok(k) => (none, Ok(MediaState { cur: SegmentView { key: Some(k), ..cur }, ..st })),
        }
    } else if starts(line, "#EXT-X-PROGRAM-DATE-TIME:"@) {
        let t = trim(after(line, "#EXT-X-PROGRAM-DATE-TIME:"@));
        (none, Ok(MediaState { cur: SegmentView { program_date_time: Some(t), ..cur }, ..st }))
    } else if line == "#EXT-X-GAP"@ {
        let gaps = if cur.gaps == u32::MAX {
            cur.gaps
        } else {
            (cur.gaps + 1) as u32
        };
        (none, Ok(MediaState { cur: SegmentView { gaps, ..cur }, ..st }))
    } else if starts(line, "#EXT-X-PART:"@) {
        let (texts, part) = part_spec(after(line, "#EXT-X-PART:"@), base);
        match part {
            Err(s) => (texts, Err(s)),
            Ok(p) => if st.part_count + 1 > MAX_PARTS {
                (texts, stop(HlsErrorView::LimitExceeded { limit: "part count"@ }))
            } else {
                (
                    texts,
                    Ok(
                        MediaState {
                            cur: SegmentView { parts: cur.parts.push(p), ..cur },
                            part_count: st.part_count + 1,
                            ..st
                        },
                    ),
                )
            },
        }
    } else if starts(line, "#EXT-X-PART-INF:"@) {
        match attrs_of(after(line, "#EXT-X-PART-INF:"@)) {
            Err(s) => (none, Err(s)),
            Ok(es) => match lookup(es, "PART-TARGET"@) {
                None => (none, stop(HlsErrorView::MissingTag { tag: "PART-TARGET"@ })),
                Some(t) => (
                    seq![t],
                    Ok(MediaState { pl: MediaView { part_target: Some(t), ..pl }, ..st }),
                ),
            },
        }
    } else if starts(line, "#EXT-X-SERVER-CONTROL:"@) {
        let (texts, sc) = server_control_spec(after(line, "#EXT-X-SERVER-CONTROL:"@));
        match sc {
            Err(s) => (texts, Err(s)),
            Ok(c) => (texts, Ok(MediaState { pl: MediaView { server_control: Some(c), ..pl }, ..st })),
        }
    } else if starts(line, "#EXT-X-PRELOAD-HINT:"@) {
        match hint_spec(after(line, "#EXT-X-PRELOAD-HINT:"@), base) {
            Err(s) => (none, Err(s)),
            Ok(h) => (none, Ok(MediaState { pl: MediaView { preload_hint: Some(h), ..pl }, ..st })),
        }
    } else if starts(line, "#EXT-X-SKIP:"@) {
        match skip_spec(after(line, "#EXT-X-SKIP:"@)) {
            Err(s) => (none, Err(s)),
            Ok(k) => (
                none,
                Ok(
                    MediaState {
                        pl: MediaView { skip: Some(k), ..pl },
                        msn: sat_add(st.msn, k.skipped_segments as u64),
                        ..st
                    },
                ),
            ),
        }
    } else if starts(line, "#EXT-X-RENDITION-REPORT:"@) {
        match report_spec(after(line, "#EXT-X-RENDITION-REPORT:"@), base) {
            Err(s) => (none, Err(s)),
            Ok(r) => (
                none,
                Ok(
                    MediaState {
                        pl: MediaView { rendition_reports: pl.rendition_reports.push(r), ..pl },
                        ..st
                    },
                ),
            ),
        }
    } else if line[0] == '#' {
        (none, Ok(st))
    } else {
        match resolve_or_stop(base, line) {
            Err(s) => (none, Err(s)),
            Ok(uri) => if st.segment_count + 1 > MAX_SEGMENTS {
                (none, stop(HlsErrorView::LimitExceeded { limit: "segments"@ }))
            } else {
                let finished = SegmentView { uri, media_sequence: st.msn, ..cur };
                (
                    none,
                    Ok(
                        MediaState {
                            pl: MediaView { segments: pl.segments.push(finished), ..pl },
                            cur: SegmentView { map: cur.map, key: cur.key, ..blank_segment() },
                            segment_count: st.segment_count + 1,
                            msn: sat_inc(st.msn),
                            part_count: st.part_count,
                        },
                    ),
                )
            },
        }
    }
}

/// The lines of `c` from `i`, as `str::lines` gives them: split at each
/// `\n`, a `\r` just before the `\n` dropped, and no empty line after a final
/// `\n`.
pub open spec fn lines_from(c: Seq<char>, i: int) -> Seq<Seq<char>>
    decreases c.len() - i,
{
    if i < 0 || i >= c.len() {
        Seq::empty()
    } else {
        let j = find_from(c, i, '\n');
        if j >= c.len() {
            seq![c.subrange(i, c.len() as int)]
        } else {
            let l = c.subrange(i, j);
            let l2 = if l.len() > 0 && l.last() == '\r' {
                l.drop_last()
            } else {
                l
            };
            proof {
                lemma_find_from_bounds(c, i, '\n');
            }
            seq![l2] + lines_from(c, j + 1)
        }
    }
}

/// The parse of `lines` of a media playlist from state `st`, with the
/// decimal texts given so far, `nums`.
pub open spec fn media_fold(
    lines: Seq<Seq<char>>,
    st: MediaState,
    nums: Seq<Seq<char>>,
    base: Seq<char>,
) -> (Seq<Seq<char>>, Result<MediaState, StopView>)
    decreases lines.len(),
{
    if lines.len() == 0 {
        (nums, Ok(st))
    } else {
        let (t, r) = media_line(st, lines[0], base);
        match r {
            Err(s) => (nums + t, Err(s)),
            Ok(s2) => media_fold(lines.drop_first(), s2, nums + t, base),
        }
    }
}

/// What parsing `input` as a media playlist against `base` gives: the
/// decimal texts read, in order, and the playlist or why the parse stopped.
pub open spec fn media_spec(input: Seq<char>, base: Seq<char>) -> (
    Seq<Seq<char>>,
    Result<MediaView, StopView>,
) {
    let (nums, r) = media_fold(lines_from(input, 0), media_start(), Seq::empty(), base);
    (
        nums,
        match r {
            Ok(st) => Ok(st.pl),
            Err(s) => Err(s),
        },
    )
}

/// A line that marks the next segment as discontinuous.
pub open spec fn is_discontinuity_line(l: Seq<char>) -> bool {
    trim(l) == "#EXT-X-DISCONTINUITY"@
}

/// A line that names a segment: neither blank nor a `#` line.
pub open spec fn is_uri_line(l: Seq<char>) -> bool {
    trim(l).len() > 0 && trim(l)[0] != '#'
}

/// For each segment named in `lines`, in order, whether an
/// `#EXT-X-DISCONTINUITY` line came after the segment before it (for the
/// first, after the start, or `pending` when one came earlier).
pub open spec fn discontinuity_marks(lines: Seq<Seq<char>>, pending: bool) -> Seq<bool>
    decreases lines.len(),
{
    if lines.len() == 0 {
        Seq::empty()
    } else if is_uri_line(lines[0]) {
        seq![pending] + discontinuity_marks(lines.drop_first(), false)
    } else if is_discontinuity_line(lines[0]) {
        discontinuity_marks(lines.drop_first(), true)
    } else {
        discontinuity_marks(lines.drop_first(), pending)
    }
}

/// The trimmed URI lines of `lines`, in order.
pub open spec fn uri_texts(lines: Seq<Seq<char>>) -> Seq<Seq<char>>
    decreases lines.len(),
{
    if lines.len() == 0 {
        Seq::empty()
    } else if is_uri_line(lines[0]) {
        seq![trim(lines[0])] + uri_texts(lines.drop_first())
    } else {
        uri_texts(lines.drop_first())
    }
}

proof fn lemma_uri_texts_len(lines: Seq<Seq<char>>, pending: bool)
    ensures
        uri_texts(lines).len() == discontinuity_marks(lines, pending).len(),
    decreases lines.len(),
{
    if lines.len() > 0 {
        lemma_uri_texts_len(lines.drop_first(), false);
        lemma_uri_texts_len(lines.drop_first(), true);
        lemma_uri_texts_len(lines.drop_first(), pending);
    }
}

proof fn lemma_not_hash_line(line: Seq<char>, p: Seq<char>)
    requires
        line.len() > 0,
        line[0] != '#',
        p.len() > 0,
        p[0] == '#',
    ensures
        line != p,
        !starts(line, p),
{
    if starts(line, p) {
        assert(line.subrange(0, p.len() as int)[0] == line[0]);
    }
}

proof fn lemma_uri_line_step(st: MediaState, raw: Seq<char>, base: Seq<char>)
    requires
        is_uri_line(raw),
        media_line(st, raw, base).1 is Ok,
    ensures
        ({
            let s2 = media_line(st, raw, base).1->Ok_0;
            &&& s2.pl.segments.len() == st.pl.segments.len() + 1
            &&& s2.pl.segments.subrange(0, st.pl.segments.len() as int) == st.pl.segments
            &&& s2.pl.segments.last().discontinuity == st.cur.discontinuity
            &&& s2.pl.segments.last().uri == resolve_spec(base, trim(raw))->Some_0
            &&& !s2.cur.discontinuity
        }),
{
    let line = trim(raw);
    reveal_strlit("#EXTM3U");
    reveal_strlit("#EXT-X-TARGETDURATION:");
    reveal_strlit("#EXT-X-MEDIA-SEQUENCE:");
    reveal_strlit("#EXT-X-DISCONTINUITY-SEQUENCE:");
    reveal_strlit("#EXT-X-PLAYLIST-TYPE:");
    reveal_strlit("#EXT-X-ENDLIST");
    reveal_strlit("#EXT-X-I-FRAMES-ONLY");
    reveal_strlit("#EXT-X-INDEPENDENT-SEGMENTS");
    reveal_strlit("#EXTINF:");
    reveal_strlit("#EXT-X-DISCONTINUITY");
    reveal_strlit("#EXT-X-BYTERANGE:");
    reveal_strlit("#EXT-X-MAP:");
    reveal_strlit("#EXT-X-KEY:");
    reveal_strlit("#EXT-X-PROGRAM-DATE-TIME:");
    reveal_strlit("#EXT-X-GAP");
    reveal_strlit("#EXT-X-PART:");
    reveal_strlit("#EXT-X-PART-INF:");
    reveal_strlit("#EXT-X-SERVER-CONTROL:");
    reveal_strlit("#EXT-X-PRELOAD-HINT:");
    reveal_strlit("#EXT-X-SKIP:");
    reveal_strlit("#EXT-X-RENDITION-REPORT:");
    lemma_not_hash_line(line, "#EXTM3U"@);
    lemma_not_hash_line(line, "#EXT-X-TARGETDURATION:"@);
    lemma_not_hash_line(line, "#EXT-X-MEDIA-SEQUENCE:"@);
    lemma_not_hash_line(line, "#EXT-X-DISCONTINUITY-SEQUENCE:"@);
    lemma_not_hash_line(line, "#EXT-X-PLAYLIST-TYPE:"@);
    lemma_not_hash_line(line, "#EXT-X-ENDLIST"@);
    lemma_not_hash_line(line, "#EXT-X-I-FRAMES-ONLY"@);
    lemma_not_hash_line(line, "#EXT-X-INDEPENDENT-SEGMENTS"@);
    lemma_not_hash_line(line, "#EXTINF:"@);
    lemma_not_hash_line(line, "#EXT-X-DISCONTINUITY"@);
    lemma_not_hash_line(line, "#EXT-X-BYTERANGE:"@);
    lemma_not_hash_line(line, "#EXT-X-MAP:"@);
    lemma_not_hash_line(line, "#EXT-X-KEY:"@);
    lemma_not_hash_line(line, "#EXT-X-PROGRAM-DATE-TIME:"@);
    lemma_not_hash_line(line, "#EXT-X-GAP"@);
    lemma_not_hash_line(line, "#EXT-X-PART:"@);
    lemma_not_hash_line(line, "#EXT-X-PART-INF:"@);
    lemma_not_hash_line(line, "#EXT-X-SERVER-CONTROL:"@);
    lemma_not_hash_line(line, "#EXT-X-PRELOAD-HINT:"@);
    lemma_not_hash_line(line, "#EXT-X-SKIP:"@);
    lemma_not_hash_line(line, "#EXT-X-RENDITION-REPORT:"@);
    let s2 = media_line(st, raw, base).1->Ok_0;
    assert(s2.pl.segments.subrange(0, st.pl.segments.len() as int) =~= st.pl.segments);
}

proof fn lemma_discontinuity_line_step(st: MediaState, raw: Seq<char>, base: Seq<char>)
    requires
        is_discontinuity_line(raw),
        media_line(st, raw, base).1 is Ok,
    ensures
        ({
            let s2 = media_line(st, raw, base).1->Ok_0;
            &&& s2.pl.segments == st.pl.segments
            &&& s2.cur.discontinuity
        }),
{
    let line = trim(raw);
    reveal_strlit("#EXTM3U");
    reveal_strlit("#EXT-X-TARGETDURATION:");
    reveal_strlit("#EXT-X-MEDIA-SEQUENCE:");
    reveal_strlit("#EXT-X-DISCONTINUITY-SEQUENCE:");
    reveal_strlit("#EXT-X-PLAYLIST-TYPE:");
    reveal_strlit("#EXT-X-ENDLIST");
    reveal_strlit("#EXT-X-I-FRAMES-ONLY");
    reveal_strlit("#EXT-X-INDEPENDENT-SEGMENTS");
    reveal_strlit("#EXTINF:");
    reveal_strlit("#EXT-X-DISCONTINUITY");
    assert(line[4] != "#EXTM3U"@[4]);
    assert(line[7] != "#EXT-X-I-FRAMES-ONLY"@[7]);
    assert(!starts(line, "#EXTINF:"@)) by {
        if starts(line, "#EXTINF:"@) {
            assert(line.subrange(0, 8)[4] == line[4]);
        }
    }
}

proof fn lemma_other_line_step(st: MediaState, raw: Seq<char>, base: Seq<char>)
    requires
        !is_uri_line(raw),
        !is_discontinuity_line(raw),
        media_line(st, raw, base).1 is Ok,
    ensures
        ({
            let s2 = media_line(st, raw, base).1->Ok_0;
            &&& s2.pl.segments == st.pl.segments
            &&& s2.cur.discontinuity == st.cur.discontinuity
        }),
{
}

proof fn lemma_fold_discontinuity(
    lines: Seq<Seq<char>>,
    st: MediaState,
    nums: Seq<Seq<char>>,
    base: Seq<char>,
)
    requires
        media_fold(lines, st, nums, base).1 is Ok,
    ensures
        ({
            let s2 = media_fold(lines, st, nums, base).1->Ok_0;
            let m = discontinuity_marks(lines, st.cur.discontinuity);
            let u = uri_texts(lines);
            let n = st.pl.segments.len();
            &&& s2.pl.segments.len() == n + m.len()
            &&& s2.pl.segments.subrange(0, n as int) == st.pl.segments
            &&& forall|k: int| 0 <= k < m.len() ==> s2.pl.segments[n + k].discontinuity == m[k]
            &&& forall|k: int|
                0 <= k < m.len() ==> s2.pl.segments[n + k].uri == resolve_spec(base, u[k])->Some_0
        }),
    decreases lines.len(),
{
    lemma_uri_texts_len(lines, st.cur.discontinuity);
    if lines.len() > 0 {
        let (t, r) = media_line(st, lines[0], base);
        let s1 = r->Ok_0;
        let rest = lines.drop_first();
        lemma_fold_discontinuity(rest, s1, nums + t, base);
        let s2 = media_fold(lines, st, nums, base).1->Ok_0;
        let n = st.pl.segments.len();
        let n1 = s1.pl.segments.len();
        let m1 = discontinuity_marks(rest, s1.cur.discontinuity);
        if is_uri_line(lines[0]) {
            lemma_uri_line_step(st, lines[0], base);
            let m = discontinuity_marks(lines, st.cur.discontinuity);
            assert(m == seq![st.cur.discontinuity] + m1);
            assert(s2.pl.segments.subrange(0, n1 as int) == s1.pl.segments);
            assert(s2.pl.segments[n as int] == s1.pl.segments[n as int]);
            let u = uri_texts(lines);
            let u1 = uri_texts(rest);
            assert(u == seq![trim(lines[0])] + u1);
            assert forall|k: int| 0 <= k < m.len() implies s2.pl.segments[n + k].discontinuity
                == m[k] && s2.pl.segments[n + k].uri == resolve_spec(base, u[k])->Some_0 by {
                if k > 0 {
                    assert(s2.pl.segments[n1 + (k - 1)].discontinuity == m1[k - 1]);
                    assert(s2.pl.segments[n1 + (k - 1)].uri == resolve_spec(base, u1[k - 1])->Some_0);
                }
            }
            assert(s2.pl.segments.subrange(0, n as int) =~= s1.pl.segments.subrange(0, n as int));
        } else if is_discontinuity_line(lines[0]) {
            lemma_discontinuity_line_step(st, lines[0], base);
        } else {
            lemma_other_line_step(st, lines[0], base);
        }
    }
}

/// Discontinuity tags mark exactly the segments they precede: in a parsed
/// media playlist there is one segment per URI line, in order, named by that
/// line resolved against the base, and discontinuous exactly when an
/// `#EXT-X-DISCONTINUITY` line came after the URI line of the segment before
/// it (after the start, for the first segment).
pub proof fn lemma_media_discontinuity(input: Seq<char>, base: Seq<char>)
    requires
        media_spec(input, base).1 is Ok,
    ensures
        ({
            let pl = media_spec(input, base).1->Ok_0;
            let m = discontinuity_marks(lines_from(input, 0), false);
            let u = uri_texts(lines_from(input, 0));
            &&& pl.segments.len() == m.len()
            &&& forall|k: int| 0 <= k < m.len() ==> pl.segments[k].discontinuity == m[k]
            &&& forall|k: int|
                0 <= k < m.len() ==> pl.segments[k].uri == resolve_spec(base, u[k])->Some_0
        }),
{
    lemma_fold_discontinuity(lines_from(input, 0), media_start(), Seq::empty(), base);
}

/// The bytes `c` takes in UTF-8.
pub fn char_width(c: char) -> (w: usize)
    ensures
        w == utf8_width(c),
{
    let u = c as u32;
    if u < 0x80 {
        1
    } else if u < 0x800 {
        2
    } else if u < 0x10000 {
        3
    } else {
        4
    }
}

proof fn lemma_utf8_len_prefix(s: Seq<char>, i: int)
    requires
        0 <= i < s.len(),
    ensures
        utf8_len(s.subrange(0, i + 1)) == utf8_len(s.subrange(0, i)) + utf8_width(s[i]),
{
    assert(s.subrange(0, i + 1).drop_last() =~= s.subrange(0, i));
}

proof fn lemma_utf8_len_mono(s: Seq<char>, i: int)
    requires
        0 <= i <= s.len(),
    ensures
        utf8_len(s.subrange(0, i)) <= utf8_len(s),
    decreases s.len() - i,
{
    if i < s.len() {
        lemma_utf8_len_prefix(s, i);
        lemma_utf8_len_mono(s, i + 1);
    } else {
        assert(s.subrange(0, i) =~= s);
    }
}

/// `c` takes more than `limit` bytes in UTF-8.
pub(crate) fn longer_than(c: &Vec<char>, limit: u64) -> (b: bool)
    ensures
        b == (utf8_len(c@) > limit),
{
    let mut acc: u64 = 0;
    let mut i: usize = 0;
    assert(c@.subrange(0, 0) =~= Seq::<char>::empty());
    while i < c.len()
        invariant
            i <= c@.len(),
            acc == utf8_len(c@.subrange(0, i as int)),
            acc <= limit,
        decreases c@.len() - i,
    {
        proof {
            lemma_utf8_len_prefix(c@, i as int);
        }
        let w = char_width(c[i]) as u64;
        if w > limit - acc {
            proof {
                lemma_utf8_len_mono(c@, i + 1);
            }
            return true;
        }
        acc = acc + w;
        i += 1;
    }
    assert(c@.subrange(0, i as int) =~= c@);
    false
}

/// Resolving `uri` against `base` would slice inside a character.
pub(crate) fn slices_badly(base: &str, uri: &str) -> (b: bool)
    ensures
        b == resolve_slices_badly(base@, uri@),
{
    let u = str_chars(uri);
    if u.len() == 0 {
        return false;
    }
    if find_sep(&u).is_some() {
        return false;
    }
    if u[0] == '/' {
        return false;
    }
    let c = str_chars(base);
    match find_last_slash(&c) {
        None => false,
        Some(s) => {
            let w1 = if s >= 1 {
                char_width(c[s - 1])
            } else {
                0
            };
            let w2 = if s >= 2 {
                char_width(c[s - 2])
            } else {
                0
            };
            w1 + w2 >= 2 && !(w1 == 2 || (w1 == 1 && w2 == 1))
        },
    }
}

/// `uri` resolved against `base`.
pub(crate) fn resolve_checked(base: &str, uri: &str) -> (r: Result<String, ParseStop>)
    ensures
        match resolve_or_stop(base@, uri@) {
            Ok(v) => r matches Ok(s) && s@ == v,
            Err(s) => r matches Err(x) && x@ == s,
        },
{
    if slices_badly(base, uri) {
        return Err(ParseStop::UnsliceableBase);
    }
    match resolve_url(base, uri) {
        Ok(s) => Ok(s),
        Err(e) => Err(ParseStop::Error(e)),
    }
}

/// The attribute list of a tag.
pub(crate) fn attrs_checked(tag: &str) -> (r: Result<AttrMap, ParseStop>)
    ensures
        match attrs_of(tag@) {
            Ok(es) => r matches Ok(m) && m.entries() == es,
            Err(s) => r matches Err(x) && x@ == s,
        },
{
    match parse_attributes(tag) {
        Ok(m) => Ok(m),
        Err(e) => Err(ParseStop::Error(e)),
    }
}

/// Attribute `key` resolved as a URI against `base`.
pub(crate) fn uri_attr(attrs: &AttrMap, key: &str, base: &str) -> (r: Result<String, ParseStop>)
    ensures
        match uri_in(attrs.entries(), key@, base@) {
            Ok(v) => r matches Ok(s) && s@ == v,
            Err(s) => r matches Err(x) && x@ == s,
        },
{
    match clone_attr(attrs, key) {
        Ok(u) => resolve_checked(base, u.as_str()),
        Err(e) => Err(ParseStop::Error(e)),
    }
}

/// The optional `BYTERANGE` attribute.
pub(crate) fn range_attr(attrs: &AttrMap) -> (r: Result<Option<ByteRange>, ParseStop>)
    ensures
        match range_in(attrs.entries()) {
            Ok(v) => r == Ok::<Option<ByteRange>, ParseStop>(v),
            Err(s) => r matches Err(x) && x@ == s,
        },
{
    match attrs.get("BYTERANGE") {
        None => Ok(None),
        Some(b) => match parse_byte_range_raw(b.as_str()) {
            Ok(v) => Ok(Some(v)),
            Err(e) => Err(ParseStop::Error(e)),
        },
    }
}

/// A flag attribute.
pub(crate) fn flag_of(attrs: &AttrMap, key: &str) -> (b: bool)
    ensures
        b == flag_in(attrs.entries(), key@),
{
    flag_attr(attrs, key)
}

/// An optional attribute, copied.
pub(crate) fn opt_of(attrs: &AttrMap, key: &str) -> (r: Option<String>)
    ensures
        opt_str(r) == lookup(attrs.entries(), key@),
{
    opt_attr(attrs, key)
}

/// `s` without its leading and trailing whitespace.
pub fn trimmed(s: &str) -> (r: String)
    ensures
        r@ == trim(s@),
{
    let c = str_chars(s);
    assert(c@.subrange(0, c@.len() as int) =~= c@);
    let (a, b) = trim_bounds(&c, 0, c.len());
    substr(s, a, b)
}

/// What follows `p` in `line`, if `line` begins with it; `c` holds the
/// characters of `line`.
pub(crate) fn strip(c: &Vec<char>, line: &str, p: &str) -> (r: Option<String>)
    requires
        c@ == line@,
    ensures
        starts(line@, p@) ==> (r matches Some(s) && s@ == after(line@, p@)),
        !starts(line@, p@) ==> r is None,
{
    let pc = str_chars(p);
    if pc.len() > c.len() {
        return None;
    }
    let mut i: usize = 0;
    while i < pc.len()
        invariant
            i <= pc@.len() <= c@.len(),
            pc@ == p@,
            c@ == line@,
            c@.subrange(0, i as int) == pc@.subrange(0, i as int),
        decreases pc@.len() - i,
    {
        if c[i] != pc[i] {
            assert(c@.subrange(0, pc@.len() as int)[i as int] != pc@[i as int]);
            assert(c@.subrange(0, pc@.len() as int) != pc@);
            return None;
        }
        assert(c@.subrange(0, i + 1) =~= c@.subrange(0, i as int).push(c@[i as int]));
        assert(pc@.subrange(0, i + 1) =~= pc@.subrange(0, i as int).push(pc@[i as int]));
        i += 1;
    }
    assert(pc@.subrange(0, i as int) =~= pc@);
    Some(substr(line, pc.len(), c.len()))
}

/// `c` spells `lit`.
pub(crate) fn is_lit(c: &Vec<char>, lit: &str) -> (b: bool)
    ensures
        b == (c@ == lit@),
{
    let l = str_chars(lit);
    if l.len() != c.len() {
        return false;
    }
    let mut i: usize = 0;
    while i < l.len()
        invariant
            i <= l@.len() == c@.len(),
            l@ == lit@,
            forall|j: int| 0 <= j < i ==> c@[j] == l@[j],
        decreases l@.len() - i,
    {
        if c[i] != l[i] {
            return false;
        }
        i += 1;
    }
    assert(c@ =~= l@);
    true
}

/// An `#EXT-X-MAP` tag.
fn map_checked(tag: &str, base: &str) -> (r: Result<SegmentMap, ParseStop>)
    ensures
        match map_spec(tag@, base@) {
            Ok(v) => r matches Ok(m) && m@ == v,
            Err(s) => r matches Err(x) && x@ == s,
        },
{
    let attrs = attrs_checked(tag)?;
    let uri = uri_attr(&attrs, "URI", base)?;
    let byte_range = range_attr(&attrs)?;
    Ok(SegmentMap { uri, byte_range })
}

/// An `#EXT-X-KEY` tag.
pub(crate) fn key_checked(tag: &str) -> (r: Result<Key, ParseStop>)
    ensures
        match key_spec(tag@) {
            Ok(v) => r matches Ok(k) && k@ == v,
            Err(s) => r matches Err(x) && x@ == s,
        },
{
    let attrs = attrs_checked(tag)?;
    match parse_key(&attrs) {
        Ok(k) => Ok(k),
        Err(e) => Err(ParseStop::Error(e)),
    }
}

/// An `#EXT-X-PART` tag; its duration text goes to `nums`.
fn part_checked(tag: &str, base: &str, nums: &mut Vec<String>) -> (r: Result<Part, ParseStop>)
    ensures
        strings_view(final(nums)@) == strings_view(old(nums)@) + part_spec(tag@, base@).0,
        match part_spec(tag@, base@).1 {
            Ok(v) => r matches Ok(p) && p@ == v,
            Err(s) => r matches Err(x) && x@ == s,
        },
{
    let ghost before = strings_view(nums@);
    assert(before + Seq::<Seq<char>>::empty() =~= before);
    let attrs = attrs_checked(tag)?;
    let d = match clone_attr(&attrs, "DURATION") {
        Ok(d) => d,
        Err(e) => {
            return Err(ParseStop::Error(e));
        },
    };
    nums.push(d.clone());
    assert(strings_view(nums@) =~= before + seq![d@]);
    let uri = uri_attr(&attrs, "URI", base)?;
    let byte_range = range_attr(&attrs)?;
    Ok(
        Part {
            duration: d,
            uri,
            independent: flag_of(&attrs, "INDEPENDENT"),
            gap: flag_of(&attrs, "GAP"),
            byte_range,
        },
    )
}

/// The text an optional attribute gives, as a list.
pub open spec fn one_text(o: Option<Seq<char>>) -> Seq<Seq<char>> {
    match o {
        Some(t) => seq![t],
        None => Seq::empty(),
    }
}

proof fn lemma_present_texts_3(
    es: Seq<(Seq<char>, Seq<char>)>,
    a: Seq<char>,
    b: Seq<char>,
    c: Seq<char>,
)
    ensures
        present_texts(es, seq![a, b, c]) == one_text(lookup(es, a)) + one_text(lookup(es, b))
            + one_text(lookup(es, c)),
{
    let k = seq![a, b, c];
    let k1 = k.drop_first();
    let k2 = k1.drop_first();
    let k3 = k2.drop_first();
    assert(k1 =~= seq![b, c] && k2 =~= seq![c] && k3.len() == 0);
    assert(present_texts(es, k3) == Seq::<Seq<char>>::empty());
    assert(present_texts(es, k2) =~= one_text(lookup(es, c)));
    assert(present_texts(es, k1) =~= one_text(lookup(es, b)) + one_text(lookup(es, c)));
    assert(present_texts(es, k) =~= one_text(lookup(es, a)) + one_text(lookup(es, b)) + one_text(
        lookup(es, c),
    ));
}

/// Push the text of an optional attribute to `nums`.
fn push_opt(nums: &mut Vec<String>, v: &Option<String>)
    ensures
        strings_view(final(nums)@) == strings_view(old(nums)@) + one_text(opt_str(*v)),
{
    let ghost before = strings_view(nums@);
    match v {
        Some(t) => {
            nums.push(t.clone());
            assert(strings_view(nums@) =~= before + seq![t@]);
        },
        None => {
            assert(before + Seq::<Seq<char>>::empty() =~= before);
        },
    }
}

/// An `#EXT-X-SERVER-CONTROL` tag; its duration texts go to `nums`.
fn server_control_checked(tag: &str, nums: &mut Vec<String>) -> (r: Result<ServerControl, ParseStop>)
    ensures
        strings_view(final(nums)@) == strings_view(old(nums)@) + server_control_spec(tag@).0,
        match server_control_spec(tag@).1 {
            Ok(v) => r matches Ok(c) && c@ == v,
            Err(s) => r matches Err(x) && x@ == s,
        },
{
    let ghost before = strings_view(nums@);
    assert(before + Seq::<Seq<char>>::empty() =~= before);
    let attrs = attrs_checked(tag)?;
    let can_block_reload = flag_of(&attrs, "CAN-BLOCK-RELOAD");
    let hold_back = opt_of(&attrs, "HOLD-BACK");
    push_opt(nums, &hold_back);
    let part_hold_back = opt_of(&attrs, "PART-HOLD-BACK");
    push_opt(nums, &part_hold_back);
    let can_skip_until = opt_of(&attrs, "CAN-SKIP-UNTIL");
    push_opt(nums, &can_skip_until);
    let can_skip_dateranges = flag_of(&attrs, "CAN-SKIP-DATERANGES");
    proof {
        lemma_present_texts_3(attrs.entries(), "HOLD-BACK"@, "PART-HOLD-BACK"@, "CAN-SKIP-UNTIL"@);
        assert(strings_view(nums@) =~= before + present_texts(
            attrs.entries(),
            seq!["HOLD-BACK"@, "PART-HOLD-BACK"@, "CAN-SKIP-UNTIL"@],
        ));
    }
    Ok(
        ServerControl {
            can_block_reload,
            hold_back,
            part_hold_back,
            can_skip_until,
            can_skip_dateranges,
        },
    )
}

/// An `#EXT-X-PRELOAD-HINT` tag.
fn hint_checked(tag: &str, base: &str) -> (r: Result<PreloadHint, ParseStop>)
    ensures
        match hint_spec(tag@, base@) {
            Ok(v) => r matches Ok(h) && h@ == v,
            Err(s) => r matches Err(x) && x@ == s,
        },
{
    let attrs = attrs_checked(tag)?;
    let t = match clone_attr(&attrs, "TYPE") {
        Ok(t) => t,
        Err(e) => {
            return Err(ParseStop::Error(e));
        },
    };
    let kind = if str_is(&t, "PART") {
        PreloadHintType::Part
    } else if str_is(&t, "MAP") {
        PreloadHintType::InitMap
    } else {
        return Err(
            ParseStop::Error(HlsError::invalid_attr("#EXT-X-PRELOAD-HINT", "TYPE", t.as_str())),
        );
    };
    let uri = uri_attr(&attrs, "URI", base)?;
    let byte_range = range_attr(&attrs)?;
    Ok(PreloadHint { kind, uri, byte_range })
}

/// Attribute `key` as a number of at most `max`.
pub(crate) fn number_checked(attrs: &AttrMap, key: &str, max: u64) -> (r: Result<u64, ParseStop>)
    ensures
        match number_in(attrs.entries(), key@, max as int) {
            Ok(n) => r == Ok::<u64, ParseStop>(n as u64) && 0 <= n <= max,
            Err(s) => r matches Err(x) && x@ == s,
        },
{
    let v = match clone_attr(attrs, key) {
        Ok(v) => v,
        Err(e) => {
            return Err(ParseStop::Error(e));
        },
    };
    match number_of(v.as_str(), max) {
        Some(n) => Ok(n),
        None => Err(ParseStop::Error(HlsError::invalid_attr("", key, v.as_str()))),
    }
}

/// The optional attribute `key` as a number of at most `max`.
pub(crate) fn optional_number_checked(attrs: &AttrMap, key: &str, max: u64) -> (r: Result<
    Option<u64>,
    ParseStop,
>)
    ensures
        match optional_number_in(attrs.entries(), key@, max as int) {
            Ok(Some(n)) => r == Ok::<Option<u64>, ParseStop>(Some(n as u64)) && 0 <= n <= max,
            Ok(None) => r == Ok::<Option<u64>, ParseStop>(None),
            Err(s) => r matches Err(x) && x@ == s,
        },
{
    match attrs.get(key) {
        None => Ok(None),
        Some(v) => match number_of(v.as_str(), max) {
            Some(n) => Ok(Some(n)),
            None => Err(ParseStop::Error(HlsError::invalid_attr("", key, v.as_str()))),
        },
    }
}

/// An `#EXT-X-RENDITION-REPORT` tag.
fn report_checked(tag: &str, base: &str) -> (r: Result<RenditionReport, ParseStop>)
    ensures
        match report_spec(tag@, base@) {
            Ok(v) => r matches Ok(x) && x@ == v,
            Err(s) => r matches Err(x) && x@ == s,
        },
{
    let attrs = attrs_checked(tag)?;
    let uri = uri_attr(&attrs, "URI", base)?;
    let last_msn = number_checked(&attrs, "LAST-MSN", u64::MAX)?;
    let last_part = optional_number_checked(&attrs, "LAST-PART", u64::MAX)?;
    Ok(RenditionReport { uri, last_msn, last_part })
}

/// An `#EXT-X-SKIP` tag.
fn skip_checked(tag: &str) -> (r: Result<Skip, ParseStop>)
    ensures
        match skip_spec(tag@) {
            Ok(v) => r matches Ok(x) && x@ == v,
            Err(s) => r matches Err(x) && x@ == s,
        },
{
    let attrs = attrs_checked(tag)?;
    let r0 = number_checked(&attrs, "SKIPPED-SEGMENTS", 0xffff_ffff);
    let n = match r0 {
        Ok(n) => n,
        Err(e) => {
            return Err(e);
        },
    };
    assert(n <= 0xffff_ffff);
    let removed = match attrs.get("RECENTLY-REMOVED-DATERANGES") {
        Some(v) => split_commas(v.as_str()),
        None => {
            let v: Vec<String> = Vec::new();
            assert(strings_view(v@) =~= Seq::<Seq<char>>::empty());
            v
        },
    };
    Ok(Skip { skipped_segments: n as u32, recently_removed_dateranges: removed })
}

/// A copy of an optional string.
pub(crate) fn clone_opt_string(o: &Option<String>) -> (r: Option<String>)
    ensures
        opt_str(r) == opt_str(*o),
{
    match o {
        Some(s) => Some(s.clone()),
        None => None,
    }
}

/// A copy of an optional initialization section.
fn clone_map(m: &Option<SegmentMap>) -> (r: Option<SegmentMap>)
    ensures
        opt_view(r) == opt_view(*m),
{
    match m {
        Some(m) => Some(SegmentMap { uri: m.uri.clone(), byte_range: m.byte_range }),
        None => None,
    }
}

/// A copy of an optional key.
pub(crate) fn clone_key(k: &Option<Key>) -> (r: Option<Key>)
    ensures
        opt_view(r) == opt_view(*k),
{
    match k {
        Some(k) => Some(
            Key {
                method: k.method.clone(),
                uri: clone_opt_string(&k.uri),
                iv: clone_opt_string(&k.iv),
                key_format: k.key_format.clone(),
                key_format_versions: k.key_format_versions.clone(),
            },
        ),
        None => None,
    }
}

/// A media playlist being parsed, line by line.
pub struct MediaBuilder {
    pl: MediaPlaylist,
    cur: Segment,
    segment_count: usize,
    part_count: usize,
    msn: u64,
}

impl View for MediaBuilder {
    type V = MediaState;

    closed spec fn view(&self) -> MediaState {
        MediaState {
            pl: self.pl@,
            cur: self.cur@,
            segment_count: self.segment_count as nat,
            part_count: self.part_count as nat,
            msn: self.msn,
        }
    }
}

impl MediaBuilder {
    /// The counts stay within their limits.
    pub closed spec fn wf(self) -> bool {
        self.segment_count <= MAX_SEGMENTS && self.part_count <= MAX_PARTS
    }

    /// A builder before the first line.
    pub fn new() -> (b: Self)
        ensures
            b@ == media_start(),
            b.wf(),
    {
        let b = MediaBuilder {
            pl: MediaPlaylist {
                target_duration: None,
                media_sequence: 0,
                discontinuity_sequence: 0,
                playlist_type: None,
                end_list: false,
                i_frames_only: false,
                independent_segments: false,
                segments: Vec::new(),
                part_inf: None,
                server_control: None,
                preload_hint: None,
                skip: None,
                rendition_reports: Vec::new(),
            },
            cur: Segment {
                duration: None,
                title: None,
                uri: String::new(),
                byte_range: None,
                map: None,
                key: None,
                discontinuity: false,
                program_date_time: None,
                gaps: 0,
                parts: Vec::new(),
                independent: false,
                media_sequence: 0,
            },
            segment_count: 0,
            part_count: 0,
            msn: 0,
        };
        assert(b.pl.segments@.map_values(|s: Segment| s@) =~= Seq::<SegmentView>::empty());
        assert(b.pl.rendition_reports@.map_values(|r: RenditionReport| r@) =~= Seq::<
            ReportView,
        >::empty());
        assert(b.cur.parts@.map_values(|p: Part| p@) =~= Seq::<PartView>::empty());
        b
    }

    /// The playlist parsed so far.
    pub fn into_playlist(self) -> (p: MediaPlaylist)
        ensures
            p@ == self@.pl,
    {
        self.pl
    }
}

impl MediaBuilder {
    /// Take one line of a media playlist; the decimal texts it gives go to
    /// `nums`.
    #[verifier::rlimit(60)]
    pub fn feed_line(&mut self, nums: &mut Vec<String>, raw: &str, base: &str) -> (r: Result<
        (),
        ParseStop,
    >)
        requires
            old(self).wf(),
        ensures
            final(self).wf(),
            ({
                let (t, res) = media_line(old(self)@, raw@, base@);
                &&& strings_view(final(nums)@) == strings_view(old(nums)@) + t
                &&& match res {
                    Ok(s) => r is Ok && final(self)@ == s,
                    Err(s) => r matches Err(x) && x@ == s,
                }
            }),
    {
        let ghost before = strings_view(nums@);
        let ghost st = self@;
        assert(before + Seq::<Seq<char>>::empty() =~= before);
        let rc = str_chars(raw);
        if longer_than(&rc, MAX_LINE_LEN as u64) {
            return Err(ParseStop::Error(HlsError::LimitExceeded { limit: "line length" }));
        }
        let line = trimmed(raw);
        let c = str_chars(line.as_str());
        if c.len() == 0 || is_lit(&c, "#EXTM3U") {
            return Ok(());
        }
        if let Some(tag) = strip(&c, line.as_str(), "#EXT-X-TARGETDURATION:") {
            let t = trimmed(tag.as_str());
            nums.push(t.clone());
            assert(strings_view(nums@) =~= before + seq![t@]);
            self.pl.target_duration = Some(t);
            return Ok(());
        }
        if let Some(tag) = strip(&c, line.as_str(), "#EXT-X-MEDIA-SEQUENCE:") {
            let t = trimmed(tag.as_str());
            match number_of(t.as_str(), u64::MAX) {
                Some(n) => {
                    self.pl.media_sequence = n;
                    self.msn = n;
                    return Ok(());
                },
                None => {
                    return Err(ParseStop::Error(HlsError::invalid_attr("", "", t.as_str())));
                },
            }
        }
        if let Some(tag) = strip(&c, line.as_str(), "#EXT-X-DISCONTINUITY-SEQUENCE:") {
            let t = trimmed(tag.as_str());
            match number_of(t.as_str(), u64::MAX) {
                Some(n) => {
                    self.pl.discontinuity_sequence = n;
                    return Ok(());
                },
                None => {
                    return Err(ParseStop::Error(HlsError::invalid_attr("", "", t.as_str())));
                },
            }
        }
        if let Some(tag) = strip(&c, line.as_str(), "#EXT-X-PLAYLIST-TYPE:") {
            let t = trimmed(tag.as_str());
            if str_is(&t, "VOD") {
                self.pl.playlist_type = Some(PlaylistType::Vod);
                return Ok(());
            } else if str_is(&t, "EVENT") {
                self.pl.playlist_type = Some(PlaylistType::Event);
                return Ok(());
            } else {
                return Err(
                    ParseStop::Error(
                        HlsError::invalid_attr("#EXT-X-PLAYLIST-TYPE", "value", t.as_str()),
                    ),
                );
            }
        }
        if is_lit(&c, "#EXT-X-ENDLIST") {
            self.pl.end_list = true;
            return Ok(());
        }
        if is_lit(&c, "#EXT-X-I-FRAMES-ONLY") {
            self.pl.i_frames_only = true;
            return Ok(());
        }
        if is_lit(&c, "#EXT-X-INDEPENDENT-SEGMENTS") {
            self.pl.independent_segments = true;
            return Ok(());
        }
        if let Some(tag) = strip(&c, line.as_str(), "#EXTINF:") {
            let tc = str_chars(tag.as_str());
            let comma = find_char(&tc, 0, ',');
            let dur = substr(tag.as_str(), 0, comma);
            let d = trimmed(dur.as_str());
            let title = if comma < tc.len() {
                Some(substr(tag.as_str(), comma + 1, tc.len()))
            } else {
                None
            };
            nums.push(d.clone());
            assert(strings_view(nums@) =~= before + seq![d@]);
            self.cur.duration = Some(d);
            self.cur.title = title;
            return Ok(());
        }
        if is_lit(&c, "#EXT-X-DISCONTINUITY") {
            self.cur.discontinuity = true;
            return Ok(());
        }
        if let Some(tag) = strip(&c, line.as_str(), "#EXT-X-BYTERANGE:") {
            let t = trimmed(tag.as_str());
            match parse_byte_range_raw(t.as_str()) {
                Ok(r) => {
                    self.cur.byte_range = Some(r);
                    return Ok(());
                },
                Err(e) => {
                    return Err(ParseStop::Error(e));
                },
            }
        }
        if let Some(tag) = strip(&c, line.as_str(), "#EXT-X-MAP:") {
            let m = map_checked(tag.as_str(), base)?;
            self.cur.map = Some(m);
            return Ok(());
        }
        if let Some(tag) = strip(&c, line.as_str(), "#EXT-X-KEY:") {
            let k = key_checked(tag.as_str())?;
            self.cur.key = Some(k);
            return Ok(());
        }
        if let Some(tag) = strip(&c, line.as_str(), "#EXT-X-PROGRAM-DATE-TIME:") {
            self.cur.program_date_time = Some(trimmed(tag.as_str()));
            return Ok(());
        }
        if is_lit(&c, "#EXT-X-GAP") {
            if self.cur.gaps < u32::MAX {
                self.cur.gaps = self.cur.gaps + 1;
            }
            return Ok(());
        }
        if let Some(tag) = strip(&c, line.as_str(), "#EXT-X-PART:") {
            let p = part_checked(tag.as_str(), base, nums)?;
            if self.part_count + 1 > MAX_PARTS {
                return Err(ParseStop::Error(HlsError::LimitExceeded { limit: "part count" }));
            }
            let ghost old_parts = self.cur.parts@.map_values(|q: Part| q@);
            let ghost pv = p@;
            self.part_count = self.part_count + 1;
            self.cur.parts.push(p);
            assert(self.cur.parts@.map_values(|q: Part| q@) =~= old_parts.push(pv));
            return Ok(());
        }
        if let Some(tag) = strip(&c, line.as_str(), "#EXT-X-PART-INF:") {
            let attrs = attrs_checked(tag.as_str())?;
            match clone_attr(&attrs, "PART-TARGET") {
                Ok(t) => {
                    nums.push(t.clone());
                    assert(strings_view(nums@) =~= before + seq![t@]);
                    self.pl.part_inf = Some(PartInf { part_target: t });
                    return Ok(());
                },
                Err(e) => {
                    return Err(ParseStop::Error(e));
                },
            }
        }
        if let Some(tag) = strip(&c, line.as_str(), "#EXT-X-SERVER-CONTROL:") {
            let sc = server_control_checked(tag.as_str(), nums)?;
            self.pl.server_control = Some(sc);
            return Ok(());
        }
        if let Some(tag) = strip(&c, line.as_str(), "#EXT-X-PRELOAD-HINT:") {
            let h = hint_checked(tag.as_str(), base)?;
            self.pl.preload_hint = Some(h);
            return Ok(());
        }
        if let Some(tag) = strip(&c, line.as_str(), "#EXT-X-SKIP:") {
            let k = skip_checked(tag.as_str())?;
            let add = k.skipped_segments as u64;
            self.msn = if self.msn > u64::MAX - add {
                u64::MAX
            } else {
                self.msn + add
            };
            self.pl.skip = Some(k);
            return Ok(());
        }
        if let Some(tag) = strip(&c, line.as_str(), "#EXT-X-RENDITION-REPORT:") {
            let rep = report_checked(tag.as_str(), base)?;
            let ghost old_reports = self.pl.rendition_reports@.map_values(|x: RenditionReport| x@);
            let ghost rv = rep@;
            self.pl.rendition_reports.push(rep);
            assert(self.pl.rendition_reports@.map_values(|x: RenditionReport| x@) =~= old_reports.push(
                rv,
            ));
            return Ok(());
        }
        if c[0] == '#' {
            return Ok(());
        }
        let uri = resolve_checked(base, line.as_str())?;
        if self.segment_count + 1 > MAX_SEGMENTS {
            return Err(ParseStop::Error(HlsError::LimitExceeded { limit: "segments" }));
        }
        let mut finished = Segment {
            duration: None,
            title: None,
            uri: String::new(),
            byte_range: None,
            map: clone_map(&self.cur.map),
            key: clone_key(&self.cur.key),
            discontinuity: false,
            program_date_time: None,
            gaps: 0,
            parts: Vec::new(),
            independent: false,
            media_sequence: 0,
        };
        assert(finished.parts@.map_values(|q: Part| q@) =~= Seq::<PartView>::empty());
        std::mem::swap(&mut self.cur, &mut finished);
        finished.uri = uri;
        finished.media_sequence = self.msn;
        self.msn = if self.msn == u64::MAX {
            self.msn
        } else {
            self.msn + 1
        };
        self.segment_count = self.segment_count + 1;
        let ghost old_segments = self.pl.segments@.map_values(|x: Segment| x@);
        let ghost fv = finished@;
        self.pl.segments.push(finished);
        assert(self.pl.segments@.map_values(|x: Segment| x@) =~= old_segments.push(fv));
        Ok(())
    }
}

/// A media playlist parse: the decimal texts read, in order, and the
/// playlist, or why the parse stopped.
#[derive(Debug, PartialEq, Eq)]
pub struct MediaParse {
    pub numbers: Vec<String>,
    pub result: Result<MediaPlaylist, ParseStop>,
}

/// Parse `input` as a media playlist, resolving URIs against `base_uri`.
/// Its decimal quantities are returned as text, in the order they were
/// read; a segment without a URI line at the end is dropped.
#[verifier::spinoff_prover]
#[verifier::rlimit(40)]
pub fn parse_media(input: &str, base_uri: &str) -> (r: MediaParse)
    ensures
        strings_view(r.numbers@) == media_spec(input@, base_uri@).0,
        match media_spec(input@, base_uri@).1 {
            Ok(v) => r.result matches Ok(p) && p@ == v,
            Err(s) => r.result matches Err(x) && x@ == s,
        },
{
    let ic = str_chars(input);
    let mut b = MediaBuilder::new();
    let mut nums: Vec<String> = Vec::new();
    let mut i: usize = 0;
    assert(strings_view(nums@) =~= Seq::<Seq<char>>::empty());
    while i < ic.len()
        invariant
            ic@ == input@,
            i <= ic@.len(),
            b.wf(),
            media_fold(lines_from(ic@, 0), media_start(), Seq::empty(), base_uri@) == media_fold(
                lines_from(ic@, i as int),
                b@,
                strings_view(nums@),
                base_uri@,
            ),
        decreases ic@.len() - i,
    {
        let j = find_char(&ic, i, '\n');
        let raw = if j >= ic.len() {
            substr(input, i, ic.len())
        } else if j > i && ic[j - 1] == '\r' {
            substr(input, i, j - 1)
        } else {
            substr(input, i, j)
        };
        let ghost lines = lines_from(ic@, i as int);
        assert(lines[0] == raw@ && lines.len() > 0) by {
            if j < ic.len() && j > i && ic[j - 1] == '\r' {
                assert(ic@.subrange(i as int, j as int).drop_last() =~= ic@.subrange(
                    i as int,
                    j - 1,
                ));
            }
        }
        let ghost next = if j >= ic.len() {
            ic@.len() as int
        } else {
            j + 1
        };
        assert(lines.drop_first() =~= lines_from(ic@, next));
        let ghost st = b@;
        let ghost ns = strings_view(nums@);
        match b.feed_line(&mut nums, raw.as_str(), base_uri) {
            Ok(()) => {},
            Err(s) => {
                return MediaParse { numbers: nums, result: Err(s) };
            },
        }
        if j >= ic.len() {
            i = ic.len();
        } else {
            i = j + 1;
        }
    }
    assert(lines_from(ic@, i as int) =~= Seq::<Seq<char>>::empty());
    MediaParse { numbers: nums, result: Ok(b.into_playlist()) }
}

impl MediaPlaylist {
    /// The playlist is video on demand: of type `VOD`, or ended.
    pub fn is_vod(&self) -> (b: bool)
        ensures
            b == (self.playlist_type == Some(PlaylistType::Vod) || self.end_list),
    {
        match self.playlist_type {
            Some(PlaylistType::Vod) => true,
            _ => self.end_list,
        }
    }
}

} // verus!
