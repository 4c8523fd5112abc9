//! Plain-value media descriptions shared by the container modules.

use vstd::prelude::*;

verus! {

/// Kind of media a track carries.
#[derive(Debug, Clone, Copy, PartialEq, Eq, Structural)]
pub enum TrackKind {
    Audio,
    Video,
    Data,
}

/// Codec identifiers the containers recognise.
#[derive(Debug, Clone, Copy, PartialEq, Eq, Structural)]
pub enum CodecId {
    H264,
    H265,
    Aac,
    Mp3,
    G711A,
    G711U,
    Opus,
    PcmU8,
    PcmS16,
    Unknown(u32),
}

/// Codec configuration carried by a track: the bytes of its decoder
/// configuration record, if it has one.
#[derive(Debug, Clone, PartialEq, Eq)]
pub enum CodecConfig {
    Unset,
    AvcC(Vec<u8>),
    HevcC(Vec<u8>),
    AacAudioSpecificConfig(Vec<u8>),
}

/// The configuration bytes, if any.
pub open spec fn config_bytes(c: CodecConfig) -> Option<Seq<u8>> {
    match c {
        CodecConfig::Unset => None,
        CodecConfig::AvcC(b) => Some(b@),
        CodecConfig::HevcC(b) => Some(b@),
        CodecConfig::AacAudioSpecificConfig(b) => Some(b@),
    }
}

impl CodecConfig {
    /// The configuration bytes, if any.
    pub fn bytes(&self) -> (r: Option<&[u8]>)
        ensures
            match config_bytes(*self) {
                Some(b) => r matches Some(s) && s@ == b,
                None => r is None,
            },
    {
        match self {
            CodecConfig::Unset => None,
            CodecConfig::AvcC(b) => Some(b.as_slice()),
            CodecConfig::HevcC(b) => Some(b.as_slice()),
            CodecConfig::AacAudioSpecificConfig(b) => Some(b.as_slice()),
        }
    }
}

/// A timestamp in ticks of some timebase.
#[derive(Debug, Clone, Copy, PartialEq, Eq)]
pub struct Timestamp {
    pub ticks: i64,
}

impl Timestamp {
    /// A timestamp of `ticks`.
    pub fn new(ticks: i64) -> (t: Self)
        ensures
            t.ticks == ticks,
    {
        Timestamp { ticks }
    }

    /// The tick count.
    pub fn ticks(&self) -> (t: i64)
        ensures
            t == self.ticks,
    {
        self.ticks
    }
}

/// A rational timebase: one tick lasts `num / den` seconds.
#[derive(Debug, Clone, Copy, PartialEq, Eq)]
pub struct TimeBase {
    pub num: u32,
    pub den: u32,
}

impl TimeBase {
    /// The 1 kHz (millisecond) timebase.
    pub fn millis() -> (t: Self)
        ensures
            t.num == 1 && t.den == 1000,
    {
        TimeBase { num: 1, den: 1000 }
    }
}

/// Presentation and decode times, with an optional duration, in ticks of a timebase.
#[derive(Debug, Clone, Copy, PartialEq, Eq)]
pub struct MediaTime {
    pub pts: Option<i64>,
    pub dts: Option<i64>,
    pub duration: Option<i64>,
    pub timebase: TimeBase,
}

impl MediaTime {
    /// A media time of the given ticks.
    pub fn from_ticks(
        pts: Option<i64>,
        dts: Option<i64>,
        duration: Option<i64>,
        timebase: TimeBase,
    ) -> (t: Self)
        ensures
            t.pts == pts && t.dts == dts && t.duration == duration && t.timebase == timebase,
    {
        MediaTime { pts, dts, duration, timebase }
    }
}

/// Packet properties.
#[derive(Debug, Clone, Copy, PartialEq, Eq)]
pub struct PacketFlags {
    pub is_keyframe: bool,
    pub is_corrupt: bool,
    pub is_discontinuity: bool,
}

/// A compressed media packet of one track.
#[derive(Debug, Clone, PartialEq, Eq)]
pub struct MediaPacket {
    pub payload: Vec<u8>,
    pub track_id: u32,
    pub stream_epoch: u64,
    pub sequence: u64,
    pub time: MediaTime,
    pub flags: PacketFlags,
}

/// A `MediaPacket` with its payload as a sequence.
pub struct PacketView {
    pub payload: Seq<u8>,
    pub track_id: u32,
    pub stream_epoch: u64,
    pub sequence: u64,
    pub time: MediaTime,
    pub flags: PacketFlags,
}

impl View for MediaPacket {
    type V = PacketView;

    open spec fn view(&self) -> PacketView {
        PacketView {
            payload: self.payload@,
            track_id: self.track_id,
            stream_epoch: self.stream_epoch,
            sequence: self.sequence,
            time: self.time,
            flags: self.flags,
        }
    }
}

/// `ticks` of timebase `tb` in whole milliseconds, rounded toward zero;
/// none for a timebase without a denominator or a result beyond `i64`.
pub open spec fn ticks_to_ms(ticks: i64, tb: TimeBase) -> Option<i64> {
    if tb.den == 0 {
        None
    } else {
        let n = ticks * tb.num * 1000;
        let q = if n >= 0 {
            n / (tb.den as int)
        } else {
            -((-n) / (tb.den as int))
        };
        if i64::MIN <= q <= i64::MAX {
            Some(q as i64)
        } else {
            None
        }
    }
}

/// The milliseconds of an optional tick count.
pub open spec fn opt_ms(t: Option<i64>, tb: TimeBase) -> Option<i64> {
    match t {
        Some(v) => ticks_to_ms(v, tb),
        None => None,
    }
}

fn ticks_ms(ticks: i64, tb: TimeBase) -> (r: Option<i64>)
    ensures
        r == ticks_to_ms(ticks, tb),
{
    if tb.den == 0 {
        return None;
    }
    let neg = ticks < 0;
    let mag: u128 = if neg {
        (0i128 - ticks as i128) as u128
    } else {
        ticks as u128
    };
    let num = tb.num as u128;
    let den = tb.den as u128;
    assert(mag <= 0x8000_0000_0000_0000);
    assert(mag * num <= 0x8000_0000_0000_0000 * 0xffff_ffff) by (nonlinear_arith)
        requires
            mag <= 0x8000_0000_0000_0000,
            num <= 0xffff_ffff,
    ;
    let prod: u128 = mag * num * 1000;
    let q: u128 = prod / den;
    proof {
        let n = ticks * tb.num * 1000;
        if neg {
            assert(-n == mag * num * 1000) by (nonlinear_arith)
                requires
                    mag == -ticks,
                    num == tb.num,
                    n == ticks * tb.num * 1000,
            ;
        } else {
            assert(n == mag * num * 1000) by (nonlinear_arith)
                requires
                    mag == ticks,
                    num == tb.num,
                    n == ticks * tb.num * 1000,
            ;
        }
    }
    if neg {
        if q <= 0x8000_0000_0000_0000 {
            Some((0i128 - q as i128) as i64)
        } else {
            None
        }
    } else {
        if q <= 0x7fff_ffff_ffff_ffff {
            Some(q as i64)
        } else {
            None
        }
    }
}

impl MediaTime {
    /// The presentation time in milliseconds, if known.
    pub fn pts_ms(&self) -> (r: Option<i64>)
        ensures
            r == opt_ms(self.pts, self.timebase),
    {
        match self.pts {
            Some(t) => ticks_ms(t, self.timebase),
            None => None,
        }
    }

    /// The decode time in milliseconds, if known.
    pub fn dts_ms(&self) -> (r: Option<i64>)
        ensures
            r == opt_ms(self.dts, self.timebase),
    {
        match self.dts {
            Some(t) => ticks_ms(t, self.timebase),
            None => None,
        }
    }
}

/// The audio format of a track: its sample rate and channel count.
#[derive(Debug, Clone, Copy, PartialEq, Eq)]
pub struct AudioFormat {
    pub sample_rate: u32,
    pub channels: u32,
}

/// The picture format of a video track: coded and visible sizes.
#[derive(Debug, Clone, Copy, PartialEq, Eq)]
pub struct VideoFormat {
    pub coded_width: u32,
    pub coded_height: u32,
    pub visible_width: u32,
    pub visible_height: u32,
}

/// A track declaration.
#[derive(Debug, Clone, PartialEq, Eq)]
pub struct TrackInfo {
    pub id: u32,
    pub kind: TrackKind,
    pub codec: CodecId,
    pub timebase: TimeBase,
    pub codec_config: CodecConfig,
    pub audio_format: Option<AudioFormat>,
    pub video_format: Option<VideoFormat>,
}

impl TrackInfo {
    /// A track without codec configuration, audio or video format.
    pub fn new(id: u32, kind: TrackKind, codec: CodecId, timebase: TimeBase) -> (t: Self)
        ensures
            t.id == id && t.kind == kind && t.codec == codec && t.timebase == timebase,
            t.codec_config == CodecConfig::Unset,
            t.audio_format is None,
            t.video_format is None,
    {
        TrackInfo {
            id,
            kind,
            codec,
            timebase,
            codec_config: CodecConfig::Unset,
            audio_format: None,
            video_format: None,
        }
    }
}

/// What a [`CodecConfig`] holds.
pub enum ConfigView {
    Unset,
    AvcC(Seq<u8>),
    HevcC(Seq<u8>),
    AacAudioSpecificConfig(Seq<u8>),
}

impl View for CodecConfig {
    type V = ConfigView;

    open spec fn view(&self) -> ConfigView {
        match self {
            CodecConfig::Unset => ConfigView::Unset,
            CodecConfig::AvcC(b) => ConfigView::AvcC(b@),
            CodecConfig::HevcC(b) => ConfigView::HevcC(b@),
            CodecConfig::AacAudioSpecificConfig(b) => ConfigView::AacAudioSpecificConfig(b@),
        }
    }
}

/// The configuration bytes a [`ConfigView`] holds, if any.
pub open spec fn config_view_bytes(c: ConfigView) -> Option<Seq<u8>> {
    match c {
        ConfigView::Unset => None,
        ConfigView::AvcC(b) => Some(b),
        ConfigView::HevcC(b) => Some(b),
        ConfigView::AacAudioSpecificConfig(b) => Some(b),
    }
}

/// What a [`TrackInfo`] holds.
pub struct TrackView {
    pub id: u32,
    pub kind: TrackKind,
    pub codec: CodecId,
    pub timebase: TimeBase,
    pub codec_config: ConfigView,
    pub audio_format: Option<AudioFormat>,
    pub video_format: Option<VideoFormat>,
}

impl View for TrackInfo {
    type V = TrackView;

    open spec fn view(&self) -> TrackView {
        TrackView {
            id: self.id,
            kind: self.kind,
            codec: self.codec,
            timebase: self.timebase,
            codec_config: self.codec_config@,
            audio_format: self.audio_format,
            video_format: self.video_format,
        }
    }
}

fn copy_bytes(b: &Vec<u8>) -> (r: Vec<u8>)
    ensures
        r@ == b@,
{
    let mut out: Vec<u8> = Vec::new();
    let mut i: usize = 0;
    while i < b.len()
        invariant
            i <= b@.len(),
            out@ == b@.subrange(0, i as int),
        decreases b@.len() - i,
    {
        out.push(b[i]);
        i += 1;
        assert(out@ =~= b@.subrange(0, i as int));
    }
    assert(b@.subrange(0, i as int) =~= b@);
    out
}

impl CodecConfig {
    /// A copy of the configuration.
    pub fn copy(&self) -> (r: Self)
        ensures
            r@ == self@,
    {
        match self {
            CodecConfig::Unset => CodecConfig::Unset,
            CodecConfig::AvcC(b) => CodecConfig::AvcC(copy_bytes(b)),
            CodecConfig::HevcC(b) => CodecConfig::HevcC(copy_bytes(b)),
            CodecConfig::AacAudioSpecificConfig(b) => CodecConfig::AacAudioSpecificConfig(
                copy_bytes(b),
            ),
        }
    }
}

impl TrackInfo {
    /// A copy of the track declaration.
    pub fn copy(&self) -> (r: Self)
        ensures
            r@ == self@,
    {
        TrackInfo {
            id: self.id,
            kind: self.kind,
            codec: self.codec,
            timebase: self.timebase,
            codec_config: self.codec_config.copy(),
            audio_format: self.audio_format,
            video_format: self.video_format,
        }
    }
}

} // verus!
