//! Master playlists: variant streams, renditions and session-wide tags.
//!
//! Frame rates and start offsets are kept as the text the playlist gives
//! them, in the order they were read, so that they can be converted to
//! numbers outside this library.

use vstd::prelude::*;

use crate::hls::error::{HlsError, HlsErrorView};
use crate::hls::media::{
    KeyView, ParseStop, StopView, after, attrs_checked, attrs_of, flag_in,
    flag_of, is_lit, key_checked, key_spec, lines_from, longer_than, number_checked,
    optional_number_in, number_in, opt_of, resolve_checked, resolve_or_stop, starts, stop, strip,
    trimmed, uri_attr, uri_in, utf8_len, MAX_LINE_LEN,
};
use crate::hls::model::{Key, MediaRendition, RenditionType, SessionData, Variable, opt_str};
use crate::hls::parser::{
    AttrMap, clone_attr, comma_pieces, lookup, parse_media_rendition, parse_resolution,
    rendition_type_spec, resolution_spec, split_commas, strings_view,
};
use crate::hls::text::{find_char, str_chars, trim};

verus! {

/// Most variant streams (and, separately, I-frame variant streams) in a
/// master playlist.
pub const MAX_VARIANTS: usize = 1_000;

/// Most alternative renditions in a master playlist.
pub const MAX_MEDIA_RENDITIONS: usize = 1_000;

/// A variant stream; its frame rate is the attribute's text.
#[derive(Debug, Clone, PartialEq, Eq)]
pub struct Variant {
    pub uri: String,
    pub bandwidth: u32,
    pub average_bandwidth: Option<u32>,
    pub codecs: Vec<String>,
    pub resolution: Option<(u32, u32)>,
    pub frame_rate: Option<String>,
    pub video_range: String,
    pub hdcp_level: String,
    pub audio_group: Option<String>,
    pub video_group: Option<String>,
    pub subtitle_group: Option<String>,
    pub closed_captions_group: Option<String>,
    pub associated_independent_segments: bool,
}

/// A preferred start point (`#EXT-X-START`); its offset is the attribute's
/// text, which may be negative.
#[derive(Debug, Clone, PartialEq, Eq)]
pub struct StartPoint {
    pub time_offset: String,
    pub precise: bool,
}

/// A master playlist.
#[derive(Debug, Clone, PartialEq, Eq)]
pub struct MasterPlaylist {
    pub variants: Vec<Variant>,
    pub i_frame_variants: Vec<Variant>,
    pub media_renditions: Vec<MediaRendition>,
    pub independent_segments: bool,
    pub start: Option<StartPoint>,
    pub session_keys: Vec<Key>,
    pub session_data: Vec<SessionData>,
    pub variables: Vec<Variable>,
}

/// A decimal text read from a playlist; `signed` when it may be negative.
#[derive(Debug, Clone, PartialEq, Eq)]
pub struct Decimal {
    pub text: String,
    pub signed: bool,
}

/// What a [`Variant`] holds.
pub struct VariantView {
    pub uri: Seq<char>,
    pub bandwidth: u32,
    pub average_bandwidth: Option<u32>,
    pub codecs: Seq<Seq<char>>,
    pub resolution: Option<(u32, u32)>,
    pub frame_rate: Option<Seq<char>>,
    pub video_range: Seq<char>,
    pub hdcp_level: Seq<char>,
    pub audio_group: Option<Seq<char>>,
    pub video_group: Option<Seq<char>>,
    pub subtitle_group: Option<Seq<char>>,
    pub closed_captions_group: Option<Seq<char>>,
    pub associated_independent_segments: bool,
}

impl View for Variant {
    type V = VariantView;

    open spec fn view(&self) -> VariantView {
        VariantView {
            uri: self.uri@,
            bandwidth: self.bandwidth,
            average_bandwidth: self.average_bandwidth,
            codecs: strings_view(self.codecs@),
            resolution: self.resolution,
            frame_rate: opt_str(self.frame_rate),
            video_range: self.video_range@,
            hdcp_level: self.hdcp_level@,
            audio_group: opt_str(self.audio_group),
            video_group: opt_str(self.video_group),
            subtitle_group: opt_str(self.subtitle_group),
            closed_captions_group: opt_str(self.closed_captions_group),
            associated_independent_segments: self.associated_independent_segments,
        }
    }
}

/// A variant with a URI and bandwidth and nothing else set.
pub open spec fn bare_variant(uri: Seq<char>, bandwidth: u32) -> VariantView {
    VariantView {
        uri,
        bandwidth,
        average_bandwidth: None,
        codecs: Seq::empty(),
        resolution: None,
        frame_rate: None,
        video_range: Seq::empty(),
        hdcp_level: Seq::empty(),
        audio_group: None,
        video_group: None,
        subtitle_group: None,
        closed_captions_group: None,
        associated_independent_segments: false,
    }
}

impl Variant {
    /// A variant stream at `uri` of `bandwidth` bits per second, with
    /// nothing else set.
    pub fn new(uri: String, bandwidth: u32) -> (v: Self)
        ensures
            v@ == bare_variant(uri@, bandwidth),
    {
        let v = Variant {
            uri,
            bandwidth,
            average_bandwidth: None,
            codecs: Vec::new(),
            resolution: None,
            frame_rate: None,
            video_range: String::new(),
            hdcp_level: String::new(),
            audio_group: None,
            video_group: None,
            subtitle_group: None,
            closed_captions_group: None,
            associated_independent_segments: false,
        };
        assert(strings_view(v.codecs@) =~= Seq::<Seq<char>>::empty());
        v
    }
}

impl Default for Variant {
    /// An empty URI and zero bandwidth.
    fn default() -> (v: Self)
        ensures
            v@ == bare_variant(Seq::empty(), 0),
    {
        Variant::new(String::new(), 0)
    }
}

/// What a [`MediaRendition`] holds.
pub struct RenditionView {
    pub kind: RenditionType,
    pub uri: Option<Seq<char>>,
    pub group_id: Seq<char>,
    pub language: Option<Seq<char>>,
    pub assoc_language: Option<Seq<char>>,
    pub name: Seq<char>,
    pub default: bool,
    pub auto_select: bool,
    pub forced: bool,
    pub in_stream_id: Option<Seq<char>>,
    pub characteristics: Seq<Seq<char>>,
    pub channels: Option<Seq<char>>,
}

impl View for MediaRendition {
    type V = RenditionView;

    open spec fn view(&self) -> RenditionView {
        RenditionView {
            kind: self.kind,
            uri: opt_str(self.uri),
            group_id: self.group_id@,
            language: opt_str(self.language),
            assoc_language: opt_str(self.assoc_language),
            name: self.name@,
            default: self.default,
            auto_select: self.auto_select,
            forced: self.forced,
            in_stream_id: opt_str(self.in_stream_id),
            characteristics: strings_view(self.characteristics@),
            channels: opt_str(self.channels),
        }
    }
}

/// What a [`SessionData`] holds.
pub struct SessionDataView {
    pub data_id: Seq<char>,
    pub value: Option<Seq<char>>,
    pub uri: Option<Seq<char>>,
    pub language: Option<Seq<char>>,
}

impl View for SessionData {
    type V = SessionDataView;

    open spec fn view(&self) -> SessionDataView {
        SessionDataView {
            data_id: self.data_id@,
            value: opt_str(self.value),
            uri: opt_str(self.uri),
            language: opt_str(self.language),
        }
    }
}

/// What a [`Variable`] holds.
pub struct VariableView {
    pub name: Seq<char>,
    pub value: Option<Seq<char>>,
    pub import: Option<Seq<char>>,
    pub quote: Option<char>,
}

impl View for Variable {
    type V = VariableView;

    open spec fn view(&self) -> VariableView {
        VariableView {
            name: self.name@,
            value: opt_str(self.value),
            import: opt_str(self.import),
            quote: self.quote,
        }
    }
}

/// What a [`StartPoint`] holds.
pub struct StartView {
    pub time_offset: Seq<char>,
    pub precise: bool,
}

/// What a [`Decimal`] holds.
pub struct DecimalView {
    pub text: Seq<char>,
    pub signed: bool,
}

impl View for Decimal {
    type V = DecimalView;

    open spec fn view(&self) -> DecimalView {
        DecimalView { text: self.text@, signed: self.signed }
    }
}

/// What a [`MasterPlaylist`] holds.
pub struct MasterView {
    pub variants: Seq<VariantView>,
    pub i_frame_variants: Seq<VariantView>,
    pub media_renditions: Seq<RenditionView>,
    pub independent_segments: bool,
    pub start: Option<StartView>,
    pub session_keys: Seq<KeyView>,
    pub session_data: Seq<SessionDataView>,
    pub variables: Seq<VariableView>,
}

impl View for MasterPlaylist {
    type V = MasterView;

    open spec fn view(&self) -> MasterView {
        MasterView {
            variants: self.variants@.map_values(|v: Variant| v@),
            i_frame_variants: self.i_frame_variants@.map_values(|v: Variant| v@),
            media_renditions: self.media_renditions@.map_values(|m: MediaRendition| m@),
            independent_segments: self.independent_segments,
            start: match self.start {
                Some(s) => Some(StartView { time_offset: s.time_offset@, precise: s.precise }),
                None => None,
            },
            session_keys: self.session_keys@.map_values(|k: Key| k@),
            session_data: self.session_data@.map_values(|d: SessionData| d@),
            variables: self.variables@.map_values(|v: Variable| v@),
        }
    }
}

/// A master playlist with nothing in it yet.
pub open spec fn blank_master() -> MasterView {
    MasterView {
        variants: Seq::empty(),
        i_frame_variants: Seq::empty(),
        media_renditions: Seq::empty(),
        independent_segments: false,
        start: None,
        session_keys: Seq::empty(),
        session_data: Seq::empty(),
        variables: Seq::empty(),
    }
}

/// Where a master playlist parse stands between lines: the playlist so far
/// and the variant stream waiting for its URI line.
pub struct MasterState {
    pub pl: MasterView,
    pub pending: Option<VariantView>,
}

/// An `#EXT-X-MEDIA` tag's attributes.
pub open spec fn rendition_spec(es: Seq<(Seq<char>, Seq<char>)>) -> Result<RenditionView, StopView> {
    match lookup(es, "TYPE"@) {
        None => stop(HlsErrorView::MissingTag { tag: "TYPE"@ }),
        Some(t) => match rendition_type_spec(t) {
            None => stop(
                HlsErrorView::InvalidAttribute { tag: "#EXT-X-MEDIA"@, key: "TYPE"@, value: t },
            ),
            Some(kind) => match lookup(es, "GROUP-ID"@) {
                None => stop(HlsErrorView::MissingTag { tag: "GROUP-ID"@ }),
                Some(group_id) => match lookup(es, "NAME"@) {
                    None => stop(HlsErrorView::MissingTag { tag: "NAME"@ }),
                    Some(name) => Ok(
                        RenditionView {
                            kind,
                            uri: lookup(es, "URI"@),
                            group_id,
                            language: lookup(es, "LANGUAGE"@),
                            assoc_language: lookup(es, "ASSOC-LANGUAGE"@),
                            name,
                            default: flag_in(es, "DEFAULT"@),
                            auto_select: flag_in(es, "AUTO-SELECT"@),
                            forced: flag_in(es, "FORCED"@),
                            in_stream_id: lookup(es, "INSTREAM-ID"@),
                            characteristics: match lookup(es, "CHARACTERISTICS"@) {
                                Some(c) => comma_pieces(c, 0),
                                None => Seq::empty(),
                            },
                            channels: lookup(es, "CHANNELS"@),
                        },
                    ),
                },
            },
        },
    }
}

/// The optional attribute `key`, or the empty text.
pub open spec fn text_or_empty(es: Seq<(Seq<char>, Seq<char>)>, key: Seq<char>) -> Seq<char> {
    match lookup(es, key) {
        Some(v) => v,
        None => Seq::empty(),
    }
}

/// The unsigned decimal texts an optional attribute gives.
pub open spec fn unsigned_texts(o: Option<Seq<char>>) -> Seq<DecimalView> {
    match o {
        Some(t) => seq![DecimalView { text: t, signed: false }],
        None => Seq::empty(),
    }
}

/// A variant stream's attributes: those of `#EXT-X-STREAM-INF` or, when
/// `iframe`, of `#EXT-X-I-FRAME-STREAM-INF` (which carries its URI), with
/// the frame rate text they give.
pub open spec fn variant_spec(es: Seq<(Seq<char>, Seq<char>)>, iframe: bool, base: Seq<char>) -> (
    Seq<DecimalView>,
    Result<VariantView, StopView>,
) {
    let none = Seq::<DecimalView>::empty();
    match number_in(es, "BANDWIDTH"@, u32::MAX as int) {
        Err(s) => (none, Err(s)),
        Ok(bw) => match optional_number_in(es, "AVERAGE-BANDWIDTH"@, u32::MAX as int) {
            Err(s) => (none, Err(s)),
            Ok(avg) => {
                let res: Result<Option<(u32, u32)>, StopView> = match lookup(es, "RESOLUTION"@) {
                    None => Ok(None),
                    Some(r) => match resolution_spec(r) {
                        Ok(wh) => Ok(Some(wh)),
                        Err(e) => stop(e),
                    },
                };
                match res {
                    Err(s) => (none, Err(s)),
                    Ok(resolution) => {
                        let fr = lookup(es, "FRAME-RATE"@);
                        let v = VariantView {
                            uri: Seq::empty(),
                            bandwidth: bw as u32,
                            average_bandwidth: match avg {
                                Some(a) => Some(a as u32),
                                None => None,
                            },
                            codecs: match lookup(es, "CODECS"@) {
                                Some(c) => comma_pieces(c, 0),
                                None => Seq::empty(),
                            },
                            resolution,
                            frame_rate: fr,
                            video_range: if iframe {
                                Seq::empty()
                            } else {
                                text_or_empty(es, "VIDEO-RANGE"@)
                            },
                            hdcp_level: if iframe {
                                Seq::empty()
                            } else {
                                text_or_empty(es, "HDCP-LEVEL"@)
                            },
                            audio_group: if iframe {
                                None
                            } else {
                                lookup(es, "AUDIO"@)
                            },
                            video_group: if iframe {
                                None
                            } else {
                                lookup(es, "VIDEO"@)
                            },
                            subtitle_group: if iframe {
                                None
                            } else {
                                lookup(es, "SUBTITLES"@)
                            },
                            closed_captions_group: if iframe {
                                None
                            } else {
                                lookup(es, "CLOSED-CAPTIONS"@)
                            },
                            associated_independent_segments: false,
                        };
                        if iframe {
                            match uri_in(es, "URI"@, base) {
                                Err(s) => (unsigned_texts(fr), Err(s)),
                                Ok(uri) => (unsigned_texts(fr), Ok(VariantView { uri, ..v })),
                            }
                        } else {
                            (unsigned_texts(fr), Ok(v))
                        }
                    },
                }
            },
        },
    }
}

/// What one line of a master playlist does to the parse, with the decimal
/// texts it gives in order.
pub open spec fn master_line(st: MasterState, raw: Seq<char>, base: Seq<char>) -> (
    Seq<DecimalView>,
    Result<MasterState, StopView>,
) {
    let none = Seq::<DecimalView>::empty();
    let line = trim(raw);
    let pl = st.pl;
    if utf8_len(raw) > MAX_LINE_LEN {
        (none, stop(HlsErrorView::LimitExceeded { limit: "line length"@ }))
    } else if line.len() == 0 || line == "#EXTM3U"@ {
        (none, Ok(st))
    } else if starts(line, "#EXT-X-STREAM-INF:"@) {
        match attrs_of(after(line, "#EXT-X-STREAM-INF:"@)) {
            Err(s) => (none, Err(s)),
            Ok(es) => {
                let (t, r) = variant_spec(es, false, base);
                match r {
                    Err(s) => (t, Err(s)),
                    Ok(v) => (t, Ok(MasterState { pending: Some(v), ..st })),
                }
            },
        }
    } else if starts(line, "#EXT-X-I-FRAME-STREAM-INF:"@) {
        match attrs_of(after(line, "#EXT-X-I-FRAME-STREAM-INF:"@)) {
            Err(s) => (none, Err(s)),
            Ok(es) => {
                let (t, r) = variant_spec(es, true, base);
                match r {
                    Err(s) => (t, Err(s)),
                    Ok(v) => if pl.i_frame_variants.len() >= MAX_VARIANTS {
                        (t, stop(HlsErrorView::LimitExceeded { limit: "i-frame variants"@ }))
                    } else {
                        (
                            t,
                            Ok(
                                MasterState {
                                    pl: MasterView {
                                        i_frame_variants: pl.i_frame_variants.push(v),
                                        ..pl
                                    },
                                    ..st
                                },
                            ),
                        )
                    },
                }
            },
        }
    } else if starts(line, "#EXT-X-MEDIA:"@) {
        match attrs_of(after(line, "#EXT-X-MEDIA:"@)) {
            Err(s) => (none, Err(s)),
            Ok(es) => match rendition_spec(es) {
                Err(s) => (none, Err(s)),
                Ok(m) => if pl.media_renditions.len() >= MAX_MEDIA_RENDITIONS {
                    (none, stop(HlsErrorView::LimitExceeded { limit: "media renditions"@ }))
                } else {
                    (
                        none,
                        Ok(
                            MasterState {
                                pl: MasterView {
                                    media_renditions: pl.media_renditions.push(m),
                                    ..pl
                                },
                                ..st
                            },
                        ),
                    )
                },
            },
        }
    } else if line == "#EXT-X-INDEPENDENT-SEGMENTS"@ {
        (none, Ok(MasterState { pl: MasterView { independent_segments: true, ..pl }, ..st }))
    } else if starts(line, "#EXT-X-START:"@) {
        match attrs_of(after(line, "#EXT-X-START:"@)) {
            Err(s) => (none, Err(s)),
            Ok(es) => match lookup(es, "TIME-OFFSET"@) {
                None => (none, stop(HlsErrorView::MissingTag { tag: "TIME-OFFSET"@ })),
                Some(t) => (
                    seq![DecimalView { text: t, signed: true }],
                    Ok(
                        MasterState {
                            pl: MasterView {
                                start: Some(
                                    StartView { time_offset: t, precise: flag_in(es, "PRECISE"@) },
                                ),
                                ..pl
                            },
                            ..st
                        },
                    ),
                ),
            },
        }
    } else if starts(line, "#EXT-X-SESSION-KEY:"@) {
        match key_spec(after(line, "#EXT-X-SESSION-KEY:"@)) {
            Err(s) => (none, Err(s)),
            Ok(k) => (
                none,
                Ok(
                    MasterState {
                        pl: MasterView { session_keys: pl.session_keys.push(k), ..pl },
                        ..st
                    },
                ),
            ),
        }
    } else if starts(line, "#EXT-X-SESSION-DATA:"@) {
        match attrs_of(after(line, "#EXT-X-SESSION-DATA:"@)) {
            Err(s) => (none, Err(s)),
            Ok(es) => match lookup(es, "DATA-ID"@) {
                None => (none, stop(HlsErrorView::MissingTag { tag: "DATA-ID"@ })),
                Some(data_id) => {
                    let d = SessionDataView {
                        data_id,
                        value: lookup(es, "VALUE"@),
                        uri: lookup(es, "URI"@),
                        language: lookup(es, "LANGUAGE"@),
                    };
                    (
                        none,
                        Ok(
                            MasterState {
                                pl: MasterView { session_data: pl.session_data.push(d), ..pl },
                                ..st
                            },
                        ),
                    )
                },
            },
        }
    } else if starts(line, "#EXT-X-DEFINE:"@) {
        match attrs_of(after(line, "#EXT-X-DEFINE:"@)) {
            Err(s) => (none, Err(s)),
            Ok(es) => match lookup(es, "NAME"@) {
                None => (none, stop(HlsErrorView::MissingTag { tag: "NAME"@ })),
                Some(name) => {
                    let v = VariableView {
                        name,
                        value: lookup(es, "VALUE"@),
                        import: lookup(es, "IMPORT"@),
                        quote: match lookup(es, "QUOTES"@) {
                            Some(q) => if q.len() > 0 {
                                Some(q[0])
                            } else {
                                None
                            },
                            None => None,
                        },
                    };
                    (
                        none,
                        Ok(
                            MasterState {
                                pl: MasterView { variables: pl.variables.push(v), ..pl },
                                ..st
                            },
                        ),
                    )
                },
            },
        }
    } else if line[0] == '#' {
        (none, Ok(st))
    } else {
        match st.pending {
            None => (none, Ok(st)),
            Some(v) => match resolve_or_stop(base, line) {
                Err(s) => (none, Err(s)),
                Ok(uri) => if pl.variants.len() >= MAX_VARIANTS {
                    (none, stop(HlsErrorView::LimitExceeded { limit: "variants"@ }))
                } else {
                    (
                        none,
                        Ok(
                            MasterState {
                                pl: MasterView {
                                    variants: pl.variants.push(VariantView { uri, ..v }),
                                    ..pl
                                },
                                pending: None,
                            },
                        ),
                    )
                },
            },
        }
    }
}

/// The parse of `lines` of a master playlist from state `st`, with the
/// decimal texts given so far, `nums`.
pub open spec fn master_fold(
    lines: Seq<Seq<char>>,
    st: MasterState,
    nums: Seq<DecimalView>,
    base: Seq<char>,
) -> (Seq<DecimalView>, Result<MasterState, StopView>)
    decreases lines.len(),
{
    if lines.len() == 0 {
        (nums, Ok(st))
    } else {
        let (t, r) = master_line(st, lines[0], base);
        match r {
            Err(s) => (nums + t, Err(s)),
            Ok(s2) => master_fold(lines.drop_first(), s2, nums + t, base),
        }
    }
}

/// What parsing `input` as a master playlist against `base` gives: the
/// decimal texts read, in order, and the playlist or why the parse stopped.
/// A playlist with no variant streams, I-frame variant streams or
/// renditions is malformed.
pub open spec fn master_spec(input: Seq<char>, base: Seq<char>) -> (
    Seq<DecimalView>,
    Result<MasterView, StopView>,
) {
    let (nums, r) = master_fold(
        lines_from(input, 0),
        MasterState { pl: blank_master(), pending: None },
        Seq::empty(),
        base,
    );
    (
        nums,
        match r {
            Err(s) => Err(s),
            Ok(st) => if st.pl.variants.len() == 0 && st.pl.i_frame_variants.len() == 0
                && st.pl.media_renditions.len() == 0 {
                stop(
                    HlsErrorView::Malformed {
                        line: 1,
                        context: "master playlist contains no variants"@,
                    },
                )
            } else {
                Ok(st.pl)
            },
        },
    )
}

/// The views of a list of decimal texts.
pub open spec fn decimals_view(v: Seq<Decimal>) -> Seq<DecimalView> {
    v.map_values(|d: Decimal| d@)
}

/// Push an unsigned decimal text, if there is one, to `nums`.
fn push_unsigned(nums: &mut Vec<Decimal>, v: &Option<String>)
    ensures
        decimals_view(final(nums)@) == decimals_view(old(nums)@) + unsigned_texts(opt_str(*v)),
{
    let ghost before = decimals_view(nums@);
    match v {
        Some(t) => {
            nums.push(Decimal { text: t.clone(), signed: false });
            assert(decimals_view(nums@) =~= before + seq![DecimalView { text: t@, signed: false }]);
        },
        None => {
            assert(before + Seq::<DecimalView>::empty() =~= before);
        },
    }
}

/// The optional attribute `key`, or an empty string.
fn string_or_empty(attrs: &AttrMap, key: &str) -> (r: String)
    ensures
        r@ == text_or_empty(attrs.entries(), key@),
{
    match attrs.get(key) {
        Some(v) => v.clone(),
        None => String::new(),
    }
}

/// A variant stream's attributes; the frame rate text goes to `nums`.
fn variant_checked(attrs: &AttrMap, iframe: bool, base: &str, nums: &mut Vec<Decimal>) -> (r: Result<
    Variant,
    ParseStop,
>)
    ensures
        decimals_view(final(nums)@) == decimals_view(old(nums)@) + variant_spec(
            attrs.entries(),
            iframe,
            base@,
        ).0,
        match variant_spec(attrs.entries(), iframe, base@).1 {
            Ok(v) => r matches Ok(x) && x@ == v,
            Err(s) => r matches Err(x) && x@ == s,
        },
{
    let ghost before = decimals_view(nums@);
    assert(before + Seq::<DecimalView>::empty() =~= before);
    let bw = match number_checked(attrs, "BANDWIDTH", 0xffff_ffff) {
        Ok(n) => n,
        Err(e) => {
            return Err(e);
        },
    };
    let average_bandwidth = match crate::hls::media::optional_number_checked(
        attrs,
        "AVERAGE-BANDWIDTH",
        0xffff_ffff,
    ) {
        Ok(Some(a)) => Some(a as u32),
        Ok(None) => None,
        Err(e) => {
            return Err(e);
        },
    };
    let codecs = match attrs.get("CODECS") {
        Some(c) => split_commas(c.as_str()),
        None => {
            let v: Vec<String> = Vec::new();
            assert(strings_view(v@) =~= Seq::<Seq<char>>::empty());
            v
        },
    };
    let resolution = match parse_resolution(attrs.get("RESOLUTION")) {
        Ok(r) => r,
        Err(e) => {
            return Err(ParseStop::Error(e));
        },
    };
    let frame_rate = opt_of(attrs, "FRAME-RATE");
    push_unsigned(nums, &frame_rate);
    let mut v = Variant {
        uri: String::new(),
        bandwidth: bw as u32,
        average_bandwidth,
        codecs,
        resolution,
        frame_rate,
        video_range: if iframe {
            String::new()
        } else {
            string_or_empty(attrs, "VIDEO-RANGE")
        },
        hdcp_level: if iframe {
            String::new()
        } else {
            string_or_empty(attrs, "HDCP-LEVEL")
        },
        audio_group: if iframe {
            None
        } else {
            opt_of(attrs, "AUDIO")
        },
        video_group: if iframe {
            None
        } else {
            opt_of(attrs, "VIDEO")
        },
        subtitle_group: if iframe {
            None
        } else {
            opt_of(attrs, "SUBTITLES")
        },
        closed_captions_group: if iframe {
            None
        } else {
            opt_of(attrs, "CLOSED-CAPTIONS")
        },
        associated_independent_segments: false,
    };
    if iframe {
        v.uri = uri_attr(attrs, "URI", base)?;
    }
    Ok(v)
}

/// A master playlist being parsed, line by line.
pub struct MasterBuilder {
    pl: MasterPlaylist,
    pending: Option<Variant>,
}

impl View for MasterBuilder {
    type V = MasterState;

    closed spec fn view(&self) -> MasterState {
        MasterState {
            pl: self.pl@,
            pending: match self.pending {
                Some(v) => Some(v@),
                None => None,
            },
        }
    }
}

impl MasterBuilder {
    /// A builder before the first line.
    pub fn new() -> (b: Self)
        ensures
            b@ == (MasterState { pl: blank_master(), pending: None }),
    {
        let b = MasterBuilder {
            pl: MasterPlaylist {
                variants: Vec::new(),
                i_frame_variants: Vec::new(),
                media_renditions: Vec::new(),
                independent_segments: false,
                start: None,
                session_keys: Vec::new(),
                session_data: Vec::new(),
                variables: Vec::new(),
            },
            pending: None,
        };
        assert(b.pl.variants@.map_values(|v: Variant| v@) =~= Seq::<VariantView>::empty());
        assert(b.pl.i_frame_variants@.map_values(|v: Variant| v@) =~= Seq::<VariantView>::empty());
        assert(b.pl.media_renditions@.map_values(|m: MediaRendition| m@) =~= Seq::<
            RenditionView,
        >::empty());
        assert(b.pl.session_keys@.map_values(|k: Key| k@) =~= Seq::<KeyView>::empty());
        assert(b.pl.session_data@.map_values(|d: SessionData| d@) =~= Seq::<
            SessionDataView,
        >::empty());
        assert(b.pl.variables@.map_values(|v: Variable| v@) =~= Seq::<VariableView>::empty());
        b
    }

    /// The playlist parsed so far.
    pub fn into_playlist(self) -> (p: MasterPlaylist)
        ensures
            p@ == self@.pl,
    {
        self.pl
    }

    /// No variant streams, I-frame variant streams or renditions so far.
    pub fn is_empty(&self) -> (b: bool)
        ensures
            b == (self@.pl.variants.len() == 0 && self@.pl.i_frame_variants.len() == 0
                && self@.pl.media_renditions.len() == 0),
    {
        self.pl.variants.len() == 0 && self.pl.i_frame_variants.len() == 0
            && self.pl.media_renditions.len() == 0
    }
}

/// An `#EXT-X-MEDIA` tag's attributes.
fn rendition_checked(attrs: &AttrMap) -> (r: Result<MediaRendition, ParseStop>)
    ensures
        match rendition_spec(attrs.entries()) {
            Ok(v) => r matches Ok(m) && m@ == v,
            Err(s) => r matches Err(x) && x@ == s,
        },
{
    match parse_media_rendition(attrs) {
        Ok(m) => Ok(m),
        Err(e) => Err(ParseStop::Error(e)),
    }
}

impl MasterBuilder {
    /// Take one line of a master playlist; the decimal texts it gives go to
    /// `nums`.
    #[verifier::rlimit(60)]
    pub fn feed_line(&mut self, nums: &mut Vec<Decimal>, raw: &str, base: &str) -> (r: Result<
        (),
        ParseStop,
    >)
        ensures
            ({
                let (t, res) = master_line(old(self)@, raw@, base@);
                &&& decimals_view(final(nums)@) == decimals_view(old(nums)@) + t
                &&& match res {
                    Ok(s) => r is Ok && final(self)@ == s,
                    Err(s) => r matches Err(x) && x@ == s,
                }
            }),
    {
        let ghost before = decimals_view(nums@);
        assert(before + Seq::<DecimalView>::empty() =~= before);
        let rc = str_chars(raw);
        if longer_than(&rc, MAX_LINE_LEN as u64) {
            return Err(ParseStop::Error(HlsError::LimitExceeded { limit: "line length" }));
        }
        let line = trimmed(raw);
        let c = str_chars(line.as_str());
        if c.len() == 0 || is_lit(&c, "#EXTM3U") {
            return Ok(());
        }
        if let Some(tag) = strip(&c, line.as_str(), "#EXT-X-STREAM-INF:") {
            let attrs = attrs_checked(tag.as_str())?;
            let v = variant_checked(&attrs, false, base, nums)?;
            self.pending = Some(v);
            return Ok(());
        }
        if let Some(tag) = strip(&c, line.as_str(), "#EXT-X-I-FRAME-STREAM-INF:") {
            let attrs = attrs_checked(tag.as_str())?;
            let v = variant_checked(&attrs, true, base, nums)?;
            if self.pl.i_frame_variants.len() >= MAX_VARIANTS {
                return Err(
                    ParseStop::Error(HlsError::LimitExceeded { limit: "i-frame variants" }),
                );
            }
            let ghost old_list = self.pl.i_frame_variants@.map_values(|x: Variant| x@);
            let ghost vv = v@;
            self.pl.i_frame_variants.push(v);
            assert(self.pl.i_frame_variants@.map_values(|x: Variant| x@) =~= old_list.push(vv));
            return Ok(());
        }
        if let Some(tag) = strip(&c, line.as_str(), "#EXT-X-MEDIA:") {
            let attrs = attrs_checked(tag.as_str())?;
            let m = rendition_checked(&attrs)?;
            if self.pl.media_renditions.len() >= MAX_MEDIA_RENDITIONS {
                return Err(
                    ParseStop::Error(HlsError::LimitExceeded { limit: "media renditions" }),
                );
            }
            let ghost old_list = self.pl.media_renditions@.map_values(|x: MediaRendition| x@);
            let ghost mv = m@;
            self.pl.media_renditions.push(m);
            assert(self.pl.media_renditions@.map_values(|x: MediaRendition| x@) =~= old_list.push(
                mv,
            ));
            return Ok(());
        }
        if is_lit(&c, "#EXT-X-INDEPENDENT-SEGMENTS") {
            self.pl.independent_segments = true;
            return Ok(());
        }
        if let Some(tag) = strip(&c, line.as_str(), "#EXT-X-START:") {
            let attrs = attrs_checked(tag.as_str())?;
            match clone_attr(&attrs, "TIME-OFFSET") {
                Ok(t) => {
                    nums.push(Decimal { text: t.clone(), signed: true });
                    assert(decimals_view(nums@) =~= before + seq![
                        DecimalView { text: t@, signed: true },
                    ]);
                    self.pl.start = Some(
                        StartPoint { time_offset: t, precise: flag_of(&attrs, "PRECISE") },
                    );
                    return Ok(());
                },
                Err(e) => {
                    return Err(ParseStop::Error(e));
                },
            }
        }
        if let Some(tag) = strip(&c, line.as_str(), "#EXT-X-SESSION-KEY:") {
            let k = key_checked(tag.as_str())?;
            let ghost old_list = self.pl.session_keys@.map_values(|x: Key| x@);
            let ghost kv = k@;
            self.pl.session_keys.push(k);
            assert(self.pl.session_keys@.map_values(|x: Key| x@) =~= old_list.push(kv));
            return Ok(());
        }
        if let Some(tag) = strip(&c, line.as_str(), "#EXT-X-SESSION-DATA:") {
            let attrs = attrs_checked(tag.as_str())?;
            let data_id = match clone_attr(&attrs, "DATA-ID") {
                Ok(d) => d,
                Err(e) => {
                    return Err(ParseStop::Error(e));
                },
            };
            let d = SessionData {
                data_id,
                value: opt_of(&attrs, "VALUE"),
                uri: opt_of(&attrs, "URI"),
                language: opt_of(&attrs, "LANGUAGE"),
            };
            let ghost old_list = self.pl.session_data@.map_values(|x: SessionData| x@);
            let ghost dv = d@;
            self.pl.session_data.push(d);
            assert(self.pl.session_data@.map_values(|x: SessionData| x@) =~= old_list.push(dv));
            return Ok(());
        }
        if let Some(tag) = strip(&c, line.as_str(), "#EXT-X-DEFINE:") {
            let attrs = attrs_checked(tag.as_str())?;
            let name = match clone_attr(&attrs, "NAME") {
                Ok(n) => n,
                Err(e) => {
                    return Err(ParseStop::Error(e));
                },
            };
            let quote = match attrs.get("QUOTES") {
                Some(q) => {
                    let qc = str_chars(q.as_str());
                    if qc.len() > 0 {
                        Some(qc[0])
                    } else {
                        None
                    }
                },
                None => None,
            };
            let v = Variable {
                name,
                value: opt_of(&attrs, "VALUE"),
                import: opt_of(&attrs, "IMPORT"),
                quote,
            };
            let ghost old_list = self.pl.variables@.map_values(|x: Variable| x@);
            let ghost vv = v@;
            self.pl.variables.push(v);
            assert(self.pl.variables@.map_values(|x: Variable| x@) =~= old_list.push(vv));
            return Ok(());
        }
        if c[0] == '#' {
            return Ok(());
        }
        let pending = self.pending.take();
        match pending {
            None => Ok(()),
            Some(mut v) => {
                v.uri = resolve_checked(base, line.as_str())?;
                if self.pl.variants.len() >= MAX_VARIANTS {
                    return Err(ParseStop::Error(HlsError::LimitExceeded { limit: "variants" }));
                }
                let ghost old_list = self.pl.variants@.map_values(|x: Variant| x@);
                let ghost vv = v@;
                self.pl.variants.push(v);
                assert(self.pl.variants@.map_values(|x: Variant| x@) =~= old_list.push(vv));
                Ok(())
            },
        }
    }
}

/// A master playlist parse: the decimal texts read, in order, and the
/// playlist, or why the parse stopped.
#[derive(Debug, PartialEq, Eq)]
pub struct MasterParse {
    pub numbers: Vec<Decimal>,
    pub result: Result<MasterPlaylist, ParseStop>,
}

/// Parse `input` as a master playlist, resolving URIs against `base_uri`.
/// Frame rates and start offsets are returned as text, in the order they
/// were read.
pub fn parse_master(input: &str, base_uri: &str) -> (r: MasterParse)
    ensures
        decimals_view(r.numbers@) == master_spec(input@, base_uri@).0,
        match master_spec(input@, base_uri@).1 {
            Ok(v) => r.result matches Ok(p) && p@ == v,
            Err(s) => r.result matches Err(x) && x@ == s,
        },
{
    let ic = str_chars(input);
    let mut b = MasterBuilder::new();
    let mut nums: Vec<Decimal> = Vec::new();
    let mut i: usize = 0;
    assert(decimals_view(nums@) =~= Seq::<DecimalView>::empty());
    while i < ic.len()
        invariant
            ic@ == input@,
            i <= ic@.len(),
            master_fold(
                lines_from(ic@, 0),
                MasterState { pl: blank_master(), pending: None },
                Seq::empty(),
                base_uri@,
            ) == master_fold(lines_from(ic@, i as int), b@, decimals_view(nums@), base_uri@),
        decreases ic@.len() - i,
    {
        let j = find_char(&ic, i, '\n');
        let raw = if j >= ic.len() {
            crate::hls::text::substr(input, i, ic.len())
        } else if j > i && ic[j - 1] == '\r' {
            crate::hls::text::substr(input, i, j - 1)
        } else {
            crate::hls::text::substr(input, i, j)
        };
        let ghost lines = lines_from(ic@, i as int);
        assert(lines[0] == raw@ && lines.len() > 0) by {
            if j < ic.len() && j > i && ic[j - 1] == '\r' {
                assert(ic@.subrange(i as int, j as int).drop_last() =~= ic@.subrange(
                    i as int,
                    j - 1,
                ));
            }
        }
        let ghost next = if j >= ic.len() {
            ic@.len() as int
        } else {
            j + 1
        };
        assert(lines.drop_first() =~= lines_from(ic@, next));
        match b.feed_line(&mut nums, raw.as_str(), base_uri) {
            Ok(()) => {},
            Err(s) => {
                return MasterParse { numbers: nums, result: Err(s) };
            },
        }
        if j >= ic.len() {
            i = ic.len();
        } else {
            i = j + 1;
        }
    }
    assert(lines_from(ic@, i as int) =~= Seq::<Seq<char>>::empty());
    if b.is_empty() {
        return MasterParse {
            numbers: nums,
            result: Err(
                ParseStop::Error(HlsError::malformed(1, "master playlist contains no variants")),
            ),
        };
    }
    MasterParse { numbers: nums, result: Ok(b.into_playlist()) }
}

} // verus!
