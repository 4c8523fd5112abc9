//! The fragmented MP4 (MSE) muxer: init segments, media segments, and the
//! muxer that cuts buffered packets into segments.

use vstd::prelude::*;

use crate::bytes::{bytes16, bytes24, bytes32, bytes64};
use crate::isobmff::boxes::{
    append, box_bytes, write_box, write_fullbox_box, write_u16, write_u24, write_u32, write_u64,
};
use crate::isobmff::error::Mp4Error;
use crate::isobmff::muxer::{
    descriptor_len_bytes, fullbox, ftyp_body, push_fullbox, write_descriptor, write_dinf,
    write_ftyp, write_mfhd, write_smhd, write_stco, write_stsc, write_stsz, write_stts,
    write_tfhd, write_vmhd,
};
use crate::isobmff::types::{
    AVC1, AVCC, DREF, ESDS, HDLR, HVC1, HVCC, MDAT, MDHD, MDIA, MFHD, MINF, MOOF, MOOV, MP4A, MVEX,
    MVHD, SMHD, STBL, STCO, STSC, STSD, STSZ, STTS, TFDT, TFHD, TKHD, TRAF, TRAK, TREX, TRUN, URL,
    VMHD,
};
use crate::media::{
    CodecConfig, CodecId, ConfigView, MediaPacket, TrackInfo, TrackKind, TrackView, VideoFormat,
    config_bytes,
};

verus! {

/// Track configuration used by the muxer.
#[derive(Debug, Clone, PartialEq, Eq)]
pub struct TrackConfig {
    pub track_id: u32,
    pub kind: TrackKind,
    pub codec: CodecId,
    pub codec_config: CodecConfig,
    pub timescale: u32,
    pub sample_entry_type: u32,
    pub width: u16,
    pub height: u16,
    pub sample_rate: u32,
    pub channel_count: u16,
    pub default_sample_duration: u32,
}

/// What a [`TrackConfig`] holds.
pub struct TrackConfigView {
    pub track_id: u32,
    pub kind: TrackKind,
    pub codec: CodecId,
    pub codec_config: ConfigView,
    pub timescale: u32,
    pub sample_entry_type: u32,
    pub width: u16,
    pub height: u16,
    pub sample_rate: u32,
    pub channel_count: u16,
    pub default_sample_duration: u32,
}

impl View for TrackConfig {
    type V = TrackConfigView;

    open spec fn view(&self) -> TrackConfigView {
        TrackConfigView {
            track_id: self.track_id,
            kind: self.kind,
            codec: self.codec,
            codec_config: self.codec_config@,
            timescale: self.timescale,
            sample_entry_type: self.sample_entry_type,
            width: self.width,
            height: self.height,
            sample_rate: self.sample_rate,
            channel_count: self.channel_count,
            default_sample_duration: self.default_sample_duration,
        }
    }
}

impl TrackConfig {
    /// A copy of the configuration.
    pub fn copy(&self) -> (r: Self)
        ensures
            r@ == self@,
    {
        TrackConfig {
            track_id: self.track_id,
            kind: self.kind,
            codec: self.codec,
            codec_config: self.codec_config.copy(),
            timescale: self.timescale,
            sample_entry_type: self.sample_entry_type,
            width: self.width,
            height: self.height,
            sample_rate: self.sample_rate,
            channel_count: self.channel_count,
            default_sample_duration: self.default_sample_duration,
        }
    }
}

/// A visible dimension of a video track for its muxer configuration: the
/// format's, or `default` when it is absent, zero or beyond `u16`.
pub open spec fn video_dim(v: Option<VideoFormat>, width: bool, default: u16) -> u16 {
    let raw: u32 = match v {
        Some(f) => if width {
            f.visible_width
        } else {
            f.visible_height
        },
        None => 0,
    };
    if raw == 0 || raw > 0xffff {
        default
    } else {
        raw as u16
    }
}

/// The muxer configuration a transmuxer derives from a track declaration,
/// with the timescale and frame duration of its video clock: H.264 / H.265
/// video with an avcC / hvcC record (640 x 360 when the size is unknown), or
/// AAC audio with its AudioSpecificConfig clocked at its sample rate (44.1 kHz
/// stereo when the format is unknown, at least 1 Hz and 1 channel); none for
/// anything else.
pub open spec fn track_config_spec(info: TrackView, video_timescale: u32, video_duration: u32) -> Option<
    TrackConfigView,
> {
    match info.kind {
        TrackKind::Video => if (info.codec == CodecId::H264 || info.codec == CodecId::H265) && (
        info.codec_config is AvcC || info.codec_config is HevcC) {
            Some(
                TrackConfigView {
                    track_id: info.id,
                    kind: TrackKind::Video,
                    codec: info.codec,
                    codec_config: info.codec_config,
                    timescale: video_timescale,
                    sample_entry_type: if info.codec == CodecId::H264 {
                        AVC1
                    } else {
                        HVC1
                    },
                    width: video_dim(info.video_format, true, 640),
                    height: video_dim(info.video_format, false, 360),
                    sample_rate: 0,
                    channel_count: 0,
                    default_sample_duration: video_duration,
                },
            )
        } else {
            None
        },
        TrackKind::Audio => if info.codec == CodecId::Aac && info.codec_config is AacAudioSpecificConfig {
            let (rate, ch): (u32, u16) = match info.audio_format {
                Some(f) => (f.sample_rate, f.channels as u16),
                None => (44_100, 2),
            };
            let rate1: u32 = if rate > 1 {
                rate
            } else {
                1
            };
            Some(
                TrackConfigView {
                    track_id: info.id,
                    kind: TrackKind::Audio,
                    codec: CodecId::Aac,
                    codec_config: info.codec_config,
                    timescale: rate1,
                    sample_entry_type: MP4A,
                    width: 0,
                    height: 0,
                    sample_rate: rate1,
                    channel_count: if ch > 1 {
                        ch
                    } else {
                        1
                    },
                    default_sample_duration: 1024,
                },
            )
        } else {
            None
        },
        TrackKind::Data => None,
    }
}

/// The muxer configuration of a track declaration; `None` where
/// [`track_config_spec`] gives none.
pub fn track_config_of(info: &TrackInfo, video_timescale: u32, video_duration: u32) -> (r: Option<
    TrackConfig,
>)
    ensures
        match track_config_spec(info@, video_timescale, video_duration) {
            Some(c) => r matches Some(x) && x@ == c,
            None => r is None,
        },
{
    match info.kind {
        TrackKind::Video => {
            let sample_entry_type = match info.codec {
                CodecId::H264 => AVC1,
                CodecId::H265 => HVC1,
                _ => {
                    return None;
                },
            };
            match &info.codec_config {
                CodecConfig::AvcC(_) | CodecConfig::HevcC(_) => {},
                _ => {
                    return None;
                },
            }
            let (w, h): (u32, u32) = match info.video_format {
                Some(f) => (f.visible_width, f.visible_height),
                None => (0, 0),
            };
            let width: u16 = if w == 0 || w > 0xffff {
                640
            } else {
                w as u16
            };
            let height: u16 = if h == 0 || h > 0xffff {
                360
            } else {
                h as u16
            };
            Some(
                TrackConfig {
                    track_id: info.id,
                    kind: TrackKind::Video,
                    codec: info.codec,
                    codec_config: info.codec_config.copy(),
                    timescale: video_timescale,
                    sample_entry_type,
                    width,
                    height,
                    sample_rate: 0,
                    channel_count: 0,
                    default_sample_duration: video_duration,
                },
            )
        },
        TrackKind::Audio => {
            if info.codec != CodecId::Aac {
                return None;
            }
            match &info.codec_config {
                CodecConfig::AacAudioSpecificConfig(_) => {},
                _ => {
                    return None;
                },
            }
            let (rate, ch): (u32, u16) = match info.audio_format {
                Some(f) => {
                    #[verifier::truncate]
                    let c = f.channels as u16;
                    (f.sample_rate, c)
                },
                None => (44_100, 2),
            };
            let rate1: u32 = if rate > 1 {
                rate
            } else {
                1
            };
            Some(
                TrackConfig {
                    track_id: info.id,
                    kind: TrackKind::Audio,
                    codec: CodecId::Aac,
                    codec_config: info.codec_config.copy(),
                    timescale: rate1,
                    sample_entry_type: MP4A,
                    width: 0,
                    height: 0,
                    sample_rate: rate1,
                    channel_count: if ch > 1 {
                        ch
                    } else {
                        1
                    },
                    default_sample_duration: 1024,
                },
            )
        },
        TrackKind::Data => None,
    }
}

/// `n` zero bytes.
pub open spec fn zeros(n: nat) -> Seq<u8> {
    Seq::new(n, |i: int| 0u8)
}

/// Appends `n` zero bytes.
fn push_zeros(v: &mut Vec<u8>, n: usize)
    ensures
        final(v)@ == old(v)@ + zeros(n as nat),
{
    let mut i: usize = 0;
    while i < n
        invariant
            i <= n,
            v@ == old(v)@ + zeros(i as nat),
        decreases n - i,
    {
        v.push(0u8);
        i += 1;
        assert(v@ =~= old(v)@ + zeros(i as nat));
    }
}

/// The `mvhd` box: the movie timescale, and the next free track id.
pub open spec fn mvhd_box(timescale: u32, next_track_id: int) -> Seq<u8> {
    box_bytes(
        MVHD,
        fullbox(0, 0) + bytes32(0) + bytes32(0) + bytes32(timescale as int) + bytes32(0) + bytes32(
            0x10000,
        ) + bytes16(0x100) + zeros(10) + zeros(36) + zeros(24) + bytes32(next_track_id),
    )
}

/// The width and height written in a track header: 16.16 fixed point for
/// video, zero otherwise.
pub open spec fn tkhd_size(c: TrackConfig) -> (int, int) {
    if c.kind == TrackKind::Video {
        (c.width as int * 0x10000, c.height as int * 0x10000)
    } else {
        (0, 0)
    }
}

/// The `tkhd` box of a track: enabled and in the movie.
pub open spec fn tkhd_box(c: TrackConfig) -> Seq<u8> {
    box_bytes(
        TKHD,
        fullbox(0, 3) + bytes32(0) + bytes32(0) + bytes32(c.track_id as int) + bytes32(0)
            + bytes32(0) + zeros(8) + bytes16(0) + bytes16(0) + bytes16(0) + bytes16(0) + zeros(36)
            + bytes32(tkhd_size(c).0) + bytes32(tkhd_size(c).1),
    )
}

/// The `mdhd` box of a track: its timescale and the undetermined language.
pub open spec fn mdhd_box(c: TrackConfig) -> Seq<u8> {
    box_bytes(
        MDHD,
        fullbox(0, 0) + bytes32(0) + bytes32(0) + bytes32(c.timescale as int) + bytes32(0) + bytes16(
            0x55c4,
        ) + bytes16(0),
    )
}

/// The handler type and name of a track: `vide` / `VideoHandler` for video,
/// `soun` / `SoundHandler` otherwise.
pub open spec fn handler(c: TrackConfig) -> (Seq<u8>, Seq<u8>) {
    if c.kind == TrackKind::Video {
        (
            seq![0x76u8, 0x69, 0x64, 0x65],
            seq![0x56u8, 0x69, 0x64, 0x65, 0x6f, 0x48, 0x61, 0x6e, 0x64, 0x6c, 0x65, 0x72, 0x00],
        )
    } else {
        (
            seq![0x73u8, 0x6f, 0x75, 0x6e],
            seq![0x53u8, 0x6f, 0x75, 0x6e, 0x64, 0x48, 0x61, 0x6e, 0x64, 0x6c, 0x65, 0x72, 0x00],
        )
    }
}

/// The `hdlr` box of a track.
pub open spec fn hdlr_box(c: TrackConfig) -> Seq<u8> {
    box_bytes(HDLR, fullbox(0, 0) + bytes32(0) + handler(c).0 + zeros(12) + handler(c).1)
}

/// The `mvhd` box for tracks `cs`, in track id order: the first track's
/// timescale (1000 without tracks) and one past the last track id.
pub fn write_mvhd(cs: &Vec<TrackConfig>) -> (r: Vec<u8>)
    requires
        cs@.len() > 0 ==> cs@.last().track_id < u32::MAX,
    ensures
        r@ == mvhd_box(
            if cs@.len() > 0 {
                cs@[0].timescale
            } else {
                1000
            },
            if cs@.len() > 0 {
                cs@.last().track_id + 1
            } else {
                1
            },
        ),
        r@.len() <= 124,
{
    let mut body = Vec::with_capacity(100);
    push_fullbox(&mut body, 0, 0);
    write_u32(&mut body, 0);
    write_u32(&mut body, 0);
    let timescale = if cs.len() > 0 {
        cs[0].timescale
    } else {
        1000
    };
    write_u32(&mut body, timescale);
    write_u32(&mut body, 0);
    write_u32(&mut body, 0x00010000);
    write_u16(&mut body, 0x0100);
    push_zeros(&mut body, 10);
    push_zeros(&mut body, 36);
    push_zeros(&mut body, 24);
    let next_track_id = if cs.len() > 0 {
        cs[cs.len() - 1].track_id + 1
    } else {
        1
    };
    write_u32(&mut body, next_track_id);
    proof {
        lemma_box_len(MVHD, body@);
    }
    write_box(MVHD, body.as_slice())
}

/// The `tkhd` box of a track.
pub fn write_tkhd(cfg: &TrackConfig) -> (r: Vec<u8>)
    ensures
        r@ == tkhd_box(*cfg),
{
    let mut body = Vec::with_capacity(84);
    push_fullbox(&mut body, 0, 0x0000_0003);
    write_u32(&mut body, 0);
    write_u32(&mut body, 0);
    write_u32(&mut body, cfg.track_id);
    write_u32(&mut body, 0);
    write_u32(&mut body, 0);
    push_zeros(&mut body, 8);
    write_u16(&mut body, 0);
    write_u16(&mut body, 0);
    write_u16(&mut body, 0);
    write_u16(&mut body, 0);
    push_zeros(&mut body, 36);
    let (w, h) = if cfg.kind == TrackKind::Video {
        ((cfg.width as u32) * 0x10000, (cfg.height as u32) * 0x10000)
    } else {
        (0u32, 0u32)
    };
    write_u32(&mut body, w);
    write_u32(&mut body, h);
    write_box(TKHD, body.as_slice())
}

/// The `mdhd` box of a track.
pub fn write_mdhd(cfg: &TrackConfig) -> (r: Vec<u8>)
    ensures
        r@ == mdhd_box(*cfg),
{
    let mut body = Vec::with_capacity(24);
    push_fullbox(&mut body, 0, 0);
    write_u32(&mut body, 0);
    write_u32(&mut body, 0);
    write_u32(&mut body, cfg.timescale);
    write_u32(&mut body, 0);
    write_u16(&mut body, 0x55c4);
    write_u16(&mut body, 0);
    write_box(MDHD, body.as_slice())
}

/// The `hdlr` box of a track.
pub fn write_hdlr(cfg: &TrackConfig) -> (r: Vec<u8>)
    ensures
        r@ == hdlr_box(*cfg),
{
    let mut body = Vec::with_capacity(33);
    push_fullbox(&mut body, 0, 0);
    write_u32(&mut body, 0);
    if cfg.kind == TrackKind::Video {
        append(&mut body, &[0x76u8, 0x69, 0x64, 0x65]);
    } else {
        append(&mut body, &[0x73u8, 0x6f, 0x75, 0x6e]);
    }
    push_zeros(&mut body, 12);
    if cfg.kind == TrackKind::Video {
        append(
            &mut body,
            &[0x56u8, 0x69, 0x64, 0x65, 0x6f, 0x48, 0x61, 0x6e, 0x64, 0x6c, 0x65, 0x72, 0x00],
        );
    } else {
        append(
            &mut body,
            &[0x53u8, 0x6f, 0x75, 0x6e, 0x64, 0x48, 0x61, 0x6e, 0x64, 0x6c, 0x65, 0x72, 0x00],
        );
    }
    proof {
        let (t, n) = handler(*cfg);
        assert(body@ =~= fullbox(0, 0) + bytes32(0) + t + zeros(12) + n);
    }
    write_box(HDLR, body.as_slice())
}

/// A box is its body and an 8- or 16-byte header.
pub proof fn lemma_box_len(t: u32, b: Seq<u8>)
    ensures
        b.len() + 8 <= box_bytes(t, b).len() <= b.len() + 16,
{
}

/// An MPEG-4 descriptor: tag, expandable length, body.
pub open spec fn desc(tag: u8, body: Seq<u8>) -> Seq<u8> {
    seq![tag] + descriptor_len_bytes(body.len()) + body
}

proof fn lemma_desc_len(tag: u8, body: Seq<u8>)
    requires
        body.len() <= usize::MAX,
    ensures
        body.len() + 2 <= desc(tag, body).len() <= body.len() + 11,
{
    crate::isobmff::muxer::lemma_descriptor_len_bytes_len(body.len());
}

/// The length of a track's configuration bytes.
pub open spec fn config_len(c: TrackConfig) -> nat {
    match config_bytes(c.codec_config) {
        Some(b) => b.len(),
        None => 0,
    }
}

/// The codec configuration box of a video track.
#[verifier::opaque]
pub open spec fn codec_box(c: TrackConfig) -> Result<Seq<u8>, Mp4Error> {
    match c.codec_config {
        CodecConfig::AvcC(b) => Ok(box_bytes(AVCC, b@)),
        CodecConfig::HevcC(b) => Ok(box_bytes(HVCC, b@)),
        _ => Err(Mp4Error::Unsupported { code: 3503, context: Some("codec config not supported for muxing") }),
    }
}

/// The fixed part of a visual sample entry: size, resolution 72 dpi, one
/// frame per sample, depth 24.
pub open spec fn visual_fields(c: TrackConfig) -> Seq<u8> {
    zeros(6) + bytes16(1) + bytes16(0) + bytes16(0) + zeros(12) + bytes16(c.width as int) + bytes16(
        c.height as int,
    ) + bytes32(0x480000) + bytes32(0x480000) + bytes32(0) + bytes16(1) + zeros(32) + bytes16(0x18)
        + bytes16(0xffff)
}

/// The visual sample entry of a track: `hvc1` for H.265, else `avc1`.
#[verifier::opaque]
pub open spec fn visual_entry(c: TrackConfig) -> Result<Seq<u8>, Mp4Error> {
    match codec_box(c) {
        Err(e) => Err(e),
        Ok(cb) => Ok(
            box_bytes(
                if c.codec == CodecId::H265 {
                    HVC1
                } else {
                    AVC1
                },
                visual_fields(c) + cb,
            ),
        ),
    }
}

/// The `esds` box of an AAC track: an ES descriptor with its decoder
/// configuration (MPEG-4 audio, the AudioSpecificConfig) and SL config.
#[verifier::opaque]
pub open spec fn esds_box(c: TrackConfig) -> Result<Seq<u8>, Mp4Error> {
    match c.codec_config {
        CodecConfig::AacAudioSpecificConfig(asc) => {
            let dcd = desc(
                4,
                seq![0x40u8, 0x15u8] + bytes24(0) + bytes32(0) + bytes32(0) + desc(5, asc@),
            );
            let es = bytes16(c.track_id as int) + seq![0u8] + dcd + desc(6, seq![2u8]);
            Ok(box_bytes(ESDS, fullbox(0, 0) + desc(3, es)))
        },
        _ => Err(Mp4Error::Unsupported { code: 3504, context: Some("esds requires AAC AudioSpecificConfig") }),
    }
}

/// The fixed part of an audio sample entry: channels, 16-bit samples, and
/// the sample rate in 16.16 fixed point (its low 32 bits).
pub open spec fn audio_fields(c: TrackConfig) -> Seq<u8> {
    zeros(6) + bytes16(1) + zeros(8) + bytes16(c.channel_count as int) + bytes16(16) + bytes16(0)
        + bytes16(0) + bytes32((c.sample_rate as int * 0x10000) % 0x1_0000_0000)
}

/// The `mp4a` sample entry of an audio track.
#[verifier::opaque]
pub open spec fn audio_entry(c: TrackConfig) -> Result<Seq<u8>, Mp4Error> {
    match esds_box(c) {
        Err(e) => Err(e),
        Ok(e) => Ok(box_bytes(MP4A, audio_fields(c) + e)),
    }
}

/// The sample entry of a track; data tracks have none.
#[verifier::opaque]
pub open spec fn sample_entry(c: TrackConfig) -> Result<Seq<u8>, Mp4Error> {
    match c.kind {
        TrackKind::Video => visual_entry(c),
        TrackKind::Audio => audio_entry(c),
        TrackKind::Data => Err(Mp4Error::Unsupported { code: 3502, context: Some("data tracks not supported") }),
    }
}

/// The empty sample tables of a fragmented track.
pub open spec fn empty_tables() -> Seq<u8> {
    box_bytes(STTS, fullbox(0, 0) + bytes32(0)) + box_bytes(STSC, fullbox(0, 0) + bytes32(0))
        + box_bytes(STSZ, fullbox(0, 0) + bytes32(0) + bytes32(0)) + box_bytes(
        STCO,
        fullbox(0, 0) + bytes32(0),
    )
}

/// The media header of a track: `vmhd` for video, else `smhd`.
pub open spec fn media_header(c: TrackConfig) -> Seq<u8> {
    if c.kind == TrackKind::Video {
        box_bytes(VMHD, fullbox(0, 1) + bytes16(0) + seq![0u8, 0u8, 0u8, 0u8, 0u8, 0u8])
    } else {
        box_bytes(SMHD, fullbox(0, 0) + bytes16(0) + bytes16(0))
    }
}

/// The data references of a track.
pub open spec fn dref_box() -> Seq<u8> {
    box_bytes(DREF, fullbox(0, 0) + bytes32(1) + box_bytes(URL, fullbox(0, 1)))
}

/// The `stsd` box of a track: its one sample entry.
#[verifier::opaque]
pub open spec fn stsd_box(c: TrackConfig) -> Result<Seq<u8>, Mp4Error> {
    match sample_entry(c) {
        Err(e) => Err(e),
        Ok(entry) => Ok(box_bytes(STSD, fullbox(0, 0) + bytes32(1) + entry)),
    }
}

/// The `stbl` box of a track: its sample description and empty tables.
#[verifier::opaque]
pub open spec fn stbl_box(c: TrackConfig) -> Result<Seq<u8>, Mp4Error> {
    match stsd_box(c) {
        Err(e) => Err(e),
        Ok(stsd) => Ok(box_bytes(STBL, stsd + empty_tables())),
    }
}

/// The `minf` box of a track.
#[verifier::opaque]
pub open spec fn minf_box(c: TrackConfig) -> Result<Seq<u8>, Mp4Error> {
    match stbl_box(c) {
        Err(e) => Err(e),
        Ok(stbl) => Ok(box_bytes(MINF, media_header(c) + dref_box() + stbl)),
    }
}

/// The `mdia` box of a track.
#[verifier::opaque]
pub open spec fn mdia_box(c: TrackConfig) -> Result<Seq<u8>, Mp4Error> {
    match minf_box(c) {
        Err(e) => Err(e),
        Ok(minf) => Ok(box_bytes(MDIA, mdhd_box(c) + hdlr_box(c) + minf)),
    }
}

/// The `trak` box of a track.
#[verifier::opaque]
pub open spec fn trak_box(c: TrackConfig) -> Result<Seq<u8>, Mp4Error> {
    match mdia_box(c) {
        Err(e) => Err(e),
        Ok(mdia) => Ok(box_bytes(TRAK, tkhd_box(c) + mdia)),
    }
}

/// The codec configuration box of a video track.
pub fn write_codec_config_box(cfg: &TrackConfig) -> (r: Result<Vec<u8>, Mp4Error>)
    requires
        config_len(*cfg) + 16384 <= usize::MAX,
    ensures
        match codec_box(*cfg) {
            Ok(b) => r matches Ok(v) && v@ == b && b.len() <= config_len(*cfg) + 16,
            Err(e) => r == Err::<Vec<u8>, Mp4Error>(e),
        },
{
    proof {
        reveal(codec_box);
    }
    match &cfg.codec_config {
        CodecConfig::AvcC(bytes) => {
            proof {
                lemma_box_len(AVCC, bytes@);
            }
            Ok(write_box(AVCC, bytes.as_slice()))
        },
        CodecConfig::HevcC(bytes) => {
            proof {
                lemma_box_len(HVCC, bytes@);
            }
            Ok(write_box(HVCC, bytes.as_slice()))
        },
        _ => Err(Mp4Error::unsupported(3503, Some("codec config not supported for muxing"))),
    }
}

/// The visual sample entry of a track.
pub fn write_visual_sample_entry(cfg: &TrackConfig) -> (r: Result<Vec<u8>, Mp4Error>)
    requires
        config_len(*cfg) + 16384 <= usize::MAX,
    ensures
        match visual_entry(*cfg) {
            Ok(b) => r matches Ok(v) && v@ == b && b.len() <= config_len(*cfg) + 128,
            Err(e) => r == Err::<Vec<u8>, Mp4Error>(e),
        },
{
    proof {
        reveal(visual_entry);
    }
    let mut body = Vec::with_capacity(78);
    push_zeros(&mut body, 6);
    write_u16(&mut body, 1);
    write_u16(&mut body, 0);
    write_u16(&mut body, 0);
    push_zeros(&mut body, 12);
    write_u16(&mut body, cfg.width);
    write_u16(&mut body, cfg.height);
    write_u32(&mut body, 0x00480000);
    write_u32(&mut body, 0x00480000);
    write_u32(&mut body, 0);
    write_u16(&mut body, 1);
    push_zeros(&mut body, 32);
    write_u16(&mut body, 0x0018);
    write_u16(&mut body, 0xffff);
    assert(body@ =~= visual_fields(*cfg));
    let cb = write_codec_config_box(cfg)?;
    append(&mut body, cb.as_slice());
    let box_type = if cfg.codec == CodecId::H265 {
        HVC1
    } else {
        AVC1
    };
    proof {
        lemma_box_len(box_type, body@);
    }
    Ok(write_box(box_type, body.as_slice()))
}

/// The `esds` box of an AAC track.
pub fn write_esds(cfg: &TrackConfig) -> (r: Result<Vec<u8>, Mp4Error>)
    requires
        config_len(*cfg) + 16384 <= usize::MAX,
    ensures
        match esds_box(*cfg) {
            Ok(b) => r matches Ok(v) && v@ == b && b.len() <= config_len(*cfg) + 160,
            Err(e) => r == Err::<Vec<u8>, Mp4Error>(e),
        },
{
    proof {
        reveal(esds_box);
    }
    let asc = match &cfg.codec_config {
        CodecConfig::AacAudioSpecificConfig(bytes) => bytes.as_slice(),
        _ => {
            return Err(Mp4Error::unsupported(3504, Some("esds requires AAC AudioSpecificConfig")));
        },
    };
    let dcd = write_decoder_config(asc);
    let es = write_es_descriptor(cfg.track_id, dcd.as_slice());
    proof {
        lemma_box_len(ESDS, fullbox(0, 0) + es@);
    }
    Ok(write_fullbox_box(ESDS, 0, 0, es.as_slice()))
}

/// The decoder configuration descriptor of MPEG-4 audio with the
/// AudioSpecificConfig `asc`.
fn write_decoder_config(asc: &[u8]) -> (r: Vec<u8>)
    requires
        asc@.len() + 16384 <= usize::MAX,
    ensures
        r@ == desc(4, seq![0x40u8, 0x15u8] + bytes24(0) + bytes32(0) + bytes32(0) + desc(5, asc@)),
        r@.len() <= asc@.len() + 40,
{
    proof {
        lemma_desc_len(5, asc@);
    }
    let dsi = write_descriptor(0x05, asc);
    let mut dcd_body = Vec::with_capacity(13 + dsi.len());
    dcd_body.push(0x40);
    dcd_body.push(0x15);
    write_u24(&mut dcd_body, 0);
    write_u32(&mut dcd_body, 0);
    write_u32(&mut dcd_body, 0);
    append(&mut dcd_body, dsi.as_slice());
    assert(dcd_body@ =~= seq![0x40u8, 0x15u8] + bytes24(0) + bytes32(0) + bytes32(0) + desc(
        5,
        asc@,
    ));
    proof {
        lemma_desc_len(4, dcd_body@);
    }
    write_descriptor(0x04, dcd_body.as_slice())
}

/// The ES descriptor of track `track_id` (its low 16 bits) holding the
/// decoder configuration descriptor `dcd` and a predefined SL config.
#[verifier::spinoff_prover]
#[verifier::rlimit(40)]
fn write_es_descriptor(track_id: u32, dcd: &[u8]) -> (r: Vec<u8>)
    requires
        dcd@.len() + 8192 <= usize::MAX,
    ensures
        r@ == desc(3, bytes16(track_id as int) + seq![0u8] + dcd@ + desc(6, seq![2u8])),
        r@.len() <= dcd@.len() + 40,
{
    proof {
        lemma_desc_len(6, seq![2u8]);
    }
    let slc = write_descriptor(0x06, &[0x02]);
    let mut es_body = Vec::with_capacity(3 + dcd.len() + slc.len());
    write_u16(&mut es_body, (track_id % 0x10000) as u16);
    es_body.push(0x00);
    append(&mut es_body, dcd);
    append(&mut es_body, slc.as_slice());
    assert(bytes16((track_id % 0x10000) as int) =~= bytes16(track_id as int));
    assert(es_body@ =~= bytes16(track_id as int) + seq![0u8] + dcd@ + desc(6, seq![2u8]));
    proof {
        lemma_desc_len(3, es_body@);
    }
    write_descriptor(0x03, es_body.as_slice())
}


/// The `mp4a` sample entry of an audio track.
pub fn write_audio_sample_entry(cfg: &TrackConfig) -> (r: Result<Vec<u8>, Mp4Error>)
    requires
        config_len(*cfg) + 16384 <= usize::MAX,
    ensures
        match audio_entry(*cfg) {
            Ok(b) => r matches Ok(v) && v@ == b && b.len() <= config_len(*cfg) + 256,
            Err(e) => r == Err::<Vec<u8>, Mp4Error>(e),
        },
{
    proof {
        reveal(audio_entry);
    }
    let mut body = Vec::with_capacity(28);
    push_zeros(&mut body, 6);
    write_u16(&mut body, 1);
    push_zeros(&mut body, 8);
    write_u16(&mut body, cfg.channel_count);
    write_u16(&mut body, 16);
    write_u16(&mut body, 0);
    write_u16(&mut body, 0);
    let rate: u32 = cfg.sample_rate;
    let sr: u32 = rate << 16;
    assert(sr as u64 == ((rate as u64) * 0x10000) % 0x1_0000_0000) by (bit_vector)
        requires
            sr == rate << 16,
    ;
    write_u32(&mut body, sr);
    assert(body@ =~= audio_fields(*cfg));
    let esds = write_esds(cfg)?;
    append(&mut body, esds.as_slice());
    proof {
        lemma_box_len(MP4A, body@);
    }
    Ok(write_box(MP4A, body.as_slice()))
}

/// The sample entry of a track.
pub fn write_sample_entry(cfg: &TrackConfig) -> (r: Result<Vec<u8>, Mp4Error>)
    requires
        config_len(*cfg) + 16384 <= usize::MAX,
    ensures
        match sample_entry(*cfg) {
            Ok(b) => r matches Ok(v) && v@ == b && b.len() <= config_len(*cfg) + 256,
            Err(e) => r == Err::<Vec<u8>, Mp4Error>(e),
        },
{
    proof {
        reveal(sample_entry);
    }
    match cfg.kind {
        TrackKind::Video => write_visual_sample_entry(cfg),
        TrackKind::Audio => write_audio_sample_entry(cfg),
        TrackKind::Data => Err(Mp4Error::unsupported(3502, Some("data tracks not supported"))),
    }
}

/// The `stsd` box of a track.
pub fn write_stsd(cfg: &TrackConfig) -> (r: Result<Vec<u8>, Mp4Error>)
    requires
        config_len(*cfg) + 16384 <= usize::MAX,
    ensures
        match stsd_box(*cfg) {
            Ok(b) => r matches Ok(v) && v@ == b && b.len() <= config_len(*cfg) + 512,
            Err(e) => r == Err::<Vec<u8>, Mp4Error>(e),
        },
{
    proof {
        reveal(stsd_box);
    }
    let entry = write_sample_entry(cfg)?;
    let mut body = Vec::new();
    push_fullbox(&mut body, 0, 0);
    write_u32(&mut body, 1);
    append(&mut body, entry.as_slice());
    proof {
        lemma_box_len(STSD, body@);
    }
    Ok(write_box(STSD, body.as_slice()))
}

/// The `stbl` box of a track.
pub fn write_stbl(cfg: &TrackConfig) -> (r: Result<Vec<u8>, Mp4Error>)
    requires
        config_len(*cfg) + 16384 <= usize::MAX,
    ensures
        match stbl_box(*cfg) {
            Ok(b) => r matches Ok(v) && v@ == b && b.len() <= config_len(*cfg) + 1024,
            Err(e) => r == Err::<Vec<u8>, Mp4Error>(e),
        },
{
    proof {
        reveal(stbl_box);
    }
    let stsd = write_stsd(cfg)?;
    let mut body = Vec::new();
    append(&mut body, stsd.as_slice());
    let stts = write_stts();
    let stsc = write_stsc();
    let stsz = write_stsz();
    let stco = write_stco();
    append(&mut body, stts.as_slice());
    append(&mut body, stsc.as_slice());
    append(&mut body, stsz.as_slice());
    append(&mut body, stco.as_slice());
    proof {
        lemma_box_len(STTS, fullbox(0, 0) + bytes32(0));
        lemma_box_len(STSC, fullbox(0, 0) + bytes32(0));
        lemma_box_len(STSZ, fullbox(0, 0) + bytes32(0) + bytes32(0));
        lemma_box_len(STCO, fullbox(0, 0) + bytes32(0));
        assert(body@ =~= stsd@ + empty_tables());
        lemma_box_len(STBL, body@);
    }
    Ok(write_box(STBL, body.as_slice()))
}

/// The `minf` box of a track.
pub fn write_minf(cfg: &TrackConfig) -> (r: Result<Vec<u8>, Mp4Error>)
    requires
        config_len(*cfg) + 16384 <= usize::MAX,
    ensures
        match minf_box(*cfg) {
            Ok(b) => r matches Ok(v) && v@ == b && b.len() <= config_len(*cfg) + 2048,
            Err(e) => r == Err::<Vec<u8>, Mp4Error>(e),
        },
{
    proof {
        reveal(minf_box);
    }
    let mut body = Vec::new();
    if cfg.kind == TrackKind::Video {
        let vmhd = write_vmhd();
        append(&mut body, vmhd.as_slice());
    } else {
        let smhd = write_smhd();
        append(&mut body, smhd.as_slice());
    }
    let dref = write_dinf();
    append(&mut body, dref.as_slice());
    let stbl = write_stbl(cfg)?;
    append(&mut body, stbl.as_slice());
    proof {
        lemma_box_len(VMHD, fullbox(0, 1) + bytes16(0) + seq![0u8, 0u8, 0u8, 0u8, 0u8, 0u8]);
        lemma_box_len(SMHD, fullbox(0, 0) + bytes16(0) + bytes16(0));
        lemma_box_len(URL, fullbox(0, 1));
        lemma_box_len(DREF, fullbox(0, 0) + bytes32(1) + box_bytes(URL, fullbox(0, 1)));
        assert(body@ =~= media_header(*cfg) + dref_box() + stbl@);
        lemma_box_len(MINF, body@);
    }
    Ok(write_box(MINF, body.as_slice()))
}

/// The `mdia` box of a track.
#[verifier::rlimit(40)]
pub fn write_mdia(cfg: &TrackConfig) -> (r: Result<Vec<u8>, Mp4Error>)
    requires
        config_len(*cfg) + 16384 <= usize::MAX,
    ensures
        match mdia_box(*cfg) {
            Ok(b) => r matches Ok(v) && v@ == b && b.len() <= config_len(*cfg) + 3072,
            Err(e) => r == Err::<Vec<u8>, Mp4Error>(e),
        },
{
    proof {
        reveal(mdia_box);
    }
    let mut body = Vec::new();
    let mdhd = write_mdhd(cfg);
    let hdlr = write_hdlr(cfg);
    append(&mut body, mdhd.as_slice());
    append(&mut body, hdlr.as_slice());
    let minf = write_minf(cfg)?;
    append(&mut body, minf.as_slice());
    proof {
        let b = fullbox(0, 0) + bytes32(0) + bytes32(0) + bytes32(cfg.timescale as int) + bytes32(0)
            + bytes16(0x55c4) + bytes16(0);
        lemma_box_len(MDHD, b);
        let (t, n) = handler(*cfg);
        lemma_box_len(HDLR, fullbox(0, 0) + bytes32(0) + t + zeros(12) + n);
        lemma_box_len(MDIA, body@);
    }
    Ok(write_box(MDIA, body.as_slice()))
}

/// The `trak` box of a track: header and media.
pub fn write_trak(cfg: &TrackConfig) -> (r: Result<Vec<u8>, Mp4Error>)
    requires
        config_len(*cfg) + 16384 <= usize::MAX,
    ensures
        match trak_box(*cfg) {
            Ok(b) => r matches Ok(v) && v@ == b && b.len() <= config_len(*cfg) + 4096,
            Err(e) => r == Err::<Vec<u8>, Mp4Error>(e),
        },
{
    proof {
        reveal(trak_box);
    }
    let mut body = Vec::new();
    let tkhd = write_tkhd(cfg);
    append(&mut body, tkhd.as_slice());
    let mdia = write_mdia(cfg)?;
    append(&mut body, mdia.as_slice());
    proof {
        let b = fullbox(0, 3) + bytes32(0) + bytes32(0) + bytes32(cfg.track_id as int) + bytes32(0)
            + bytes32(0) + zeros(8) + bytes16(0) + bytes16(0) + bytes16(0) + bytes16(0) + zeros(36)
            + bytes32(tkhd_size(*cfg).0) + bytes32(tkhd_size(*cfg).1);
        lemma_box_len(TKHD, b);
        lemma_box_len(TRAK, body@);
    }
    Ok(write_box(TRAK, body.as_slice()))
}

/// The `trex` box of a track: its default sample duration.
pub open spec fn trex_box(c: TrackConfig) -> Seq<u8> {
    box_bytes(
        TREX,
        fullbox(0, 0) + bytes32(c.track_id as int) + bytes32(1) + bytes32(
            c.default_sample_duration as int,
        ) + bytes32(0) + bytes32(0),
    )
}

/// The `trex` boxes of tracks `cs`, in order.
pub open spec fn trexs(cs: Seq<TrackConfig>) -> Seq<u8>
    decreases cs.len(),
{
    if cs.len() == 0 {
        Seq::empty()
    } else {
        trexs(cs.drop_last()) + trex_box(cs.last())
    }
}

/// The `trak` boxes of tracks `cs`, in order, or the first track's error.
#[verifier::opaque]
pub open spec fn traks(cs: Seq<TrackConfig>) -> Result<Seq<u8>, Mp4Error>
    decreases cs.len(),
{
    if cs.len() == 0 {
        Ok(Seq::empty())
    } else {
        match traks(cs.drop_last()) {
            Err(e) => Err(e),
            Ok(t) => match trak_box(cs.last()) {
                Err(e) => Err(e),
                Ok(b) => Ok(t + b),
            },
        }
    }
}

/// The configuration bytes of tracks `cs` with room for their boxes.
pub open spec fn configs_len(cs: Seq<TrackConfig>) -> nat
    decreases cs.len(),
{
    if cs.len() == 0 {
        0
    } else {
        configs_len(cs.drop_last()) + config_len(cs.last()) + 16384
    }
}

/// The `moov` box of tracks `cs`: movie header, tracks, and the movie
/// extends box with their defaults.
pub open spec fn moov_box(cs: Seq<TrackConfig>) -> Result<Seq<u8>, Mp4Error> {
    match traks(cs) {
        Err(e) => Err(e),
        Ok(t) => Ok(
            box_bytes(
                MOOV,
                mvhd_box(
                    if cs.len() > 0 {
                        cs[0].timescale
                    } else {
                        1000
                    },
                    if cs.len() > 0 {
                        cs.last().track_id + 1
                    } else {
                        1
                    },
                ) + t + box_bytes(MVEX, trexs(cs)),
            ),
        ),
    }
}

/// An init segment for tracks `cs`: `ftyp` and `moov`; without tracks there
/// is none.
pub open spec fn init_segment(cs: Seq<TrackConfig>) -> Result<Seq<u8>, Mp4Error> {
    if cs.len() == 0 {
        Err(Mp4Error::InvalidInput { code: 3501, context: Some("no tracks configured") })
    } else {
        match moov_box(cs) {
            Err(e) => Err(e),
            Ok(m) => Ok(box_bytes(crate::isobmff::types::FTYP, ftyp_body()) + m),
        }
    }
}

/// The `trex` box of a track.
pub fn write_trex(cfg: &TrackConfig) -> (r: Vec<u8>)
    ensures
        r@ == trex_box(*cfg),
        r@.len() == 32,
{
    let mut body = Vec::with_capacity(24);
    push_fullbox(&mut body, 0, 0);
    write_u32(&mut body, cfg.track_id);
    write_u32(&mut body, 1);
    write_u32(&mut body, cfg.default_sample_duration);
    write_u32(&mut body, 0);
    write_u32(&mut body, 0);
    write_box(TREX, body.as_slice())
}

/// The `mvex` box of tracks `cs`.
pub fn write_mvex(cs: &Vec<TrackConfig>) -> (r: Vec<u8>)
    requires
        32 * cs@.len() + 64 <= usize::MAX,
    ensures
        r@ == box_bytes(MVEX, trexs(cs@)),
        r@.len() <= 32 * cs@.len() + 16,
{
    let mut body = Vec::new();
    let mut i: usize = 0;
    while i < cs.len()
        invariant
            i <= cs@.len(),
            32 * cs@.len() + 64 <= usize::MAX,
            body@ == trexs(cs@.subrange(0, i as int)),
            body@.len() == 32 * i,
        decreases cs@.len() - i,
    {
        let t = write_trex(&cs[i]);
        append(&mut body, t.as_slice());
        assert(cs@.subrange(0, i + 1).drop_last() =~= cs@.subrange(0, i as int));
        i += 1;
    }
    assert(cs@.subrange(0, i as int) =~= cs@);
    proof {
        lemma_box_len(MVEX, body@);
    }
    write_box(MVEX, body.as_slice())
}

proof fn lemma_configs_len_prefix(cs: Seq<TrackConfig>, i: int)
    requires
        0 <= i < cs.len(),
    ensures
        configs_len(cs.subrange(0, i + 1)) == configs_len(cs.subrange(0, i)) + config_len(cs[i])
            + 16384,
        configs_len(cs.subrange(0, i + 1)) <= configs_len(cs),
    decreases cs.len() - i,
{
    assert(cs.subrange(0, i + 1).drop_last() =~= cs.subrange(0, i));
    if i + 1 < cs.len() {
        lemma_configs_len_prefix(cs, i + 1);
    } else {
        assert(cs.subrange(0, i + 1) =~= cs);
    }
}

/// Once a track fails, the tracks fail with its error.
proof fn lemma_traks_err(cs: Seq<TrackConfig>, k: int)
    requires
        0 <= k <= cs.len(),
        traks(cs.subrange(0, k)) is Err,
    ensures
        traks(cs) == traks(cs.subrange(0, k)),
    decreases cs.len() - k,
{
    if k < cs.len() {
        reveal(traks);
        assert(cs.subrange(0, k + 1).drop_last() =~= cs.subrange(0, k));
        lemma_traks_err(cs, k + 1);
    } else {
        assert(cs.subrange(0, k) =~= cs);
    }
}

/// The `moov` box of tracks `cs`.
#[verifier::rlimit(40)]
pub fn write_moov(cs: &Vec<TrackConfig>) -> (r: Result<Vec<u8>, Mp4Error>)
    requires
        configs_len(cs@) + 65536 <= usize::MAX,
        cs@.len() > 0 ==> cs@.last().track_id < u32::MAX,
    ensures
        match moov_box(cs@) {
            Ok(b) => r matches Ok(v) && v@ == b,
            Err(e) => r == Err::<Vec<u8>, Mp4Error>(e),
        },
{
    let mut body = write_mvhd(cs);
    let ghost mvhd = body@;
    let mut i: usize = 0;
    proof {
        reveal(traks);
        assert(cs@.subrange(0, 0) =~= Seq::<TrackConfig>::empty());
    }
    while i < cs.len()
        invariant
            i <= cs@.len(),
            configs_len(cs@) + 65536 <= usize::MAX,
            traks(cs@.subrange(0, i as int)) matches Ok(t) && body@ == mvhd + t,
            body@.len() + 12288 * i <= 124 + configs_len(cs@.subrange(0, i as int)),
        decreases cs@.len() - i,
    {
        proof {
            lemma_configs_len_prefix(cs@, i as int);
            reveal(traks);
            assert(cs@.subrange(0, i + 1).drop_last() =~= cs@.subrange(0, i as int));
        }
        let t = match write_trak(&cs[i]) {
            Ok(t) => t,
            Err(e) => {
                proof {
                    lemma_traks_err(cs@, i + 1);
                }
                return Err(e);
            },
        };
        append(&mut body, t.as_slice());
        i += 1;
    }
    assert(cs@.subrange(0, i as int) =~= cs@);
    proof {
        assert(configs_len(cs@) >= 16384 * cs@.len()) by {
            lemma_configs_len_ge(cs@);
        }
    }
    let mvex = write_mvex(cs);
    append(&mut body, mvex.as_slice());
    proof {
        lemma_box_len(MOOV, body@);
    }
    Ok(write_box(MOOV, body.as_slice()))
}

proof fn lemma_configs_len_ge(cs: Seq<TrackConfig>)
    ensures
        configs_len(cs) >= 16384 * cs.len(),
    decreases cs.len(),
{
    if cs.len() > 0 {
        lemma_configs_len_ge(cs.drop_last());
    }
}

/// The base decode time of a run of packets: the first packet's decode
/// timestamp as a `u64` (its two's-complement bits), or 0.
pub open spec fn base_dts(ps: Seq<MediaPacket>) -> u64 {
    if ps.len() > 0 {
        match ps[0].time.dts {
            Some(d) => d as u64,
            None => 0,
        }
    } else {
        0
    }
}

/// The `tfdt` box of a run of packets (version 1).
pub open spec fn tfdt_box(ps: Seq<MediaPacket>) -> Seq<u8> {
    box_bytes(TFDT, fullbox(1, 0) + bytes64(base_dts(ps) as int))
}

/// A packet's `trun` entry: duration, size, flags (sync, or non-sync and
/// depended on) and composition offset, each its low 32 bits.
pub open spec fn trun_sample(p: MediaPacket) -> Seq<u8> {
    bytes32(
        match p.time.duration {
            Some(d) => (d as u32) as int,
            None => 0,
        },
    ) + bytes32((p.payload@.len() as u32) as int) + bytes32(
        if p.flags.is_keyframe {
            0x02000000
        } else {
            0x01010000
        },
    ) + bytes32(
        match (p.time.pts, p.time.dts) {
            (Some(a), Some(b)) => ((a - b) as u32) as int,
            _ => 0,
        },
    )
}

/// The `trun` entries of packets `ps`, in order.
pub open spec fn trun_samples(ps: Seq<MediaPacket>) -> Seq<u8>
    decreases ps.len(),
{
    if ps.len() == 0 {
        Seq::empty()
    } else {
        trun_samples(ps.drop_last()) + trun_sample(ps.last())
    }
}

/// The `trun` box of packets `ps` with data offset `offset`.
pub open spec fn trun_box(ps: Seq<MediaPacket>, offset: u32) -> Seq<u8> {
    box_bytes(
        TRUN,
        fullbox(1, 0xf01) + bytes32((ps.len() as u32) as int) + bytes32(offset as int) + trun_samples(
            ps,
        ),
    )
}

/// The `traf` box of track `id` with packets `ps`, its data offset left 0.
#[verifier::opaque]
pub open spec fn traf_box(id: u32, ps: Seq<MediaPacket>) -> Seq<u8> {
    box_bytes(
        TRAF,
        box_bytes(TFHD, fullbox(0, 0x020000) + bytes32(id as int)) + tfdt_box(ps) + trun_box(ps, 0),
    )
}

/// The packets' composition offsets can be computed: a presentation time
/// minus a decode time stays an `i64`.
pub open spec fn offsets_fit(ps: Seq<MediaPacket>) -> bool {
    forall|i: int|
        0 <= i < ps.len() ==> match (#[trigger] ps[i].time.pts, ps[i].time.dts) {
            (Some(a), Some(b)) => i64::MIN <= a - b <= i64::MAX,
            _ => true,
        }
}

/// The `tfdt` box of a run of packets.
pub fn write_tfdt(packets: &[MediaPacket]) -> (r: Result<Vec<u8>, Mp4Error>)
    ensures
        r matches Ok(v) && v@ == tfdt_box(packets@) && v@.len() == 20,
{
    let base: u64 = if packets.len() > 0 {
        match packets[0].time.dts {
            Some(d) => d as u64,
            None => 0,
        }
    } else {
        0
    };
    let mut body = Vec::with_capacity(12);
    push_fullbox(&mut body, 1, 0);
    write_u64(&mut body, base);
    Ok(write_box(TFDT, body.as_slice()))
}

/// The `trun` box of packets with a zero data offset, and where the data
/// offset lies in it.
pub fn write_trun(packets: &[MediaPacket]) -> (r: (Vec<u8>, usize))
    requires
        16 * packets@.len() + 64 <= usize::MAX,
        offsets_fit(packets@),
    ensures
        r.0@ == trun_box(packets@, 0),
        r.1 == 16,
        r.0@.len() <= 16 * packets@.len() + 28,
{
    let mut body = Vec::new();
    push_fullbox(&mut body, 1, 0x0000_0f01);
    write_u32(&mut body, packets.len() as u32);
    let data_offset_pos = body.len();
    write_u32(&mut body, 0);
    let ghost head = body@;
    let mut i: usize = 0;
    while i < packets.len()
        invariant
            i <= packets@.len(),
            16 * packets@.len() + 64 <= usize::MAX,
            offsets_fit(packets@),
            body@ == head + trun_samples(packets@.subrange(0, i as int)),
            body@.len() == 12 + 16 * i,
            head.len() == 12,
        decreases packets@.len() - i,
    {
        let pkt = &packets[i];
        let duration: u32 = match pkt.time.duration {
            Some(d) => d as u32,
            None => 0,
        };
        let size = pkt.payload.len() as u32;
        let composition_offset: i32 = match (pkt.time.pts, pkt.time.dts) {
            (Some(p), Some(d)) => {
                assert(i64::MIN <= p - d <= i64::MAX) by {
                    assert(packets@[i as int].time.pts == Some(p));
                }
                (p - d) as i32
            },
            _ => 0,
        };
        let flags: u32 = if pkt.flags.is_keyframe {
            0x02000000
        } else {
            0x01010000
        };
        write_u32(&mut body, duration);
        write_u32(&mut body, size);
        write_u32(&mut body, flags);
        let off_bits: u32 = composition_offset as u32;
        proof {
            if let (Some(p), Some(d)) = (pkt.time.pts, pkt.time.dts) {
                let x: i64 = (p - d) as i64;
                assert((x as i32) as u32 == x as u32) by (bit_vector);
            }
        }
        write_u32(&mut body, off_bits);
        assert(packets@.subrange(0, i + 1).drop_last() =~= packets@.subrange(0, i as int));
        assert(body@ =~= head + trun_samples(packets@.subrange(0, i + 1)));
        i += 1;
    }
    assert(packets@.subrange(0, i as int) =~= packets@);
    proof {
        lemma_box_len(TRUN, body@);
    }
    (write_box(TRUN, body.as_slice()), data_offset_pos + 8)
}

/// The `traf` box of track `track_id` with `packets`, its data offset left
/// 0, and where that offset lies in it.
pub fn write_traf(track_id: u32, packets: &[MediaPacket]) -> (r: Result<(Vec<u8>, usize), Mp4Error>)
    requires
        16 * packets@.len() + 256 <= usize::MAX,
        offsets_fit(packets@),
    ensures
        r matches Ok((v, pos)) && v@ == traf_box(track_id, packets@) && pos == 60
            && v@.len() <= 16 * packets@.len() + 96,
{
    proof {
        reveal(traf_box);
    }
    let mut inner = Vec::new();
    let tfhd = write_tfhd(track_id);
    append(&mut inner, tfhd.as_slice());
    let tfdt = write_tfdt(packets)?;
    append(&mut inner, tfdt.as_slice());
    let (trun, patch_pos_in_trun) = write_trun(packets);
    append(&mut inner, trun.as_slice());
    proof {
        lemma_box_len(TFHD, fullbox(0, 0x020000) + bytes32(track_id as int));
        lemma_box_len(TRAF, inner@);
    }
    let patch_pos = 8 + tfhd.len() + tfdt.len() + patch_pos_in_trun;
    Ok((write_box(TRAF, inner.as_slice()), patch_pos))
}

/// The total payload size of packets `ps`.
pub open spec fn payload_total(ps: Seq<MediaPacket>) -> int
    decreases ps.len(),
{
    if ps.len() == 0 {
        0
    } else {
        payload_total(ps.drop_last()) + ps.last().payload@.len()
    }
}

/// The packets of each track, in track order, as sequences.
pub open spec fn tracks_view(ts: Seq<(u32, Vec<MediaPacket>)>) -> Seq<(u32, Seq<MediaPacket>)> {
    ts.map_values(|t: (u32, Vec<MediaPacket>)| (t.0, t.1@))
}

/// The `traf` boxes of tracks `ts`, in order, their data offsets left 0.
pub open spec fn trafs(ts: Seq<(u32, Seq<MediaPacket>)>) -> Seq<u8>
    decreases ts.len(),
{
    if ts.len() == 0 {
        Seq::empty()
    } else {
        trafs(ts.drop_last()) + traf_box(ts.last().0, ts.last().1)
    }
}

/// `s` with the four bytes at `pos` replaced by `v`.
pub open spec fn patch4(s: Seq<u8>, pos: int, v: Seq<u8>) -> Seq<u8> {
    s.subrange(0, pos) + v + s.subrange(pos + 4, s.len() as int)
}

/// The data offsets written into `body`, the `moof` body, for tracks `ts`
/// from the `k`-th: each track's run points `base` bytes past the start of
/// the `moof` plus the payloads of the tracks before it, written 60 bytes
/// into its `traf`, which starts at `pos`.
pub open spec fn moof_patches(
    body: Seq<u8>,
    ts: Seq<(u32, Seq<MediaPacket>)>,
    k: int,
    pos: int,
    cum: int,
    base: int,
) -> Seq<u8>
    decreases ts.len() - k,
{
    if k < 0 || k >= ts.len() {
        body
    } else {
        moof_patches(
            patch4(body, pos + 60, bytes32(base + cum)),
            ts,
            k + 1,
            pos + traf_box(ts[k].0, ts[k].1).len(),
            cum + payload_total(ts[k].1),
            base,
        )
    }
}

/// The `moof` box of tracks `ts` in fragment `sequence`: each track's run
/// points at its first payload in the `mdat` that follows.
pub open spec fn moof_box(ts: Seq<(u32, Seq<MediaPacket>)>, sequence: u32) -> Seq<u8> {
    let raw = box_bytes(MFHD, fullbox(0, 0) + bytes32(sequence as int)) + trafs(ts);
    box_bytes(MOOF, moof_patches(raw, ts, 0, 16, 0, raw.len() as int + 16))
}

/// The payloads of packets `ps`, in order.
pub open spec fn payloads(ps: Seq<MediaPacket>) -> Seq<u8>
    decreases ps.len(),
{
    if ps.len() == 0 {
        Seq::empty()
    } else {
        payloads(ps.drop_last()) + ps.last().payload@
    }
}

/// The payloads of tracks `ts`, track after track.
pub open spec fn track_payloads(ts: Seq<(u32, Seq<MediaPacket>)>) -> Seq<u8>
    decreases ts.len(),
{
    if ts.len() == 0 {
        Seq::empty()
    } else {
        track_payloads(ts.drop_last()) + payloads(ts.last().1)
    }
}

/// The `mdat` box holding the payloads of tracks `ts`.
pub open spec fn mdat_box(ts: Seq<(u32, Seq<MediaPacket>)>) -> Seq<u8> {
    box_bytes(MDAT, track_payloads(ts))
}

/// Overwrite the four bytes at `pos` with the low 32 bits of `x`, big-endian.
pub(crate) fn patch_u32_be(v: &mut Vec<u8>, pos: usize, x: u64)
    requires
        pos + 4 <= old(v)@.len(),
    ensures
        final(v)@ == patch4(old(v)@, pos as int, bytes32(x as int)),
{
    let n = v.len();
    assert(pos + 4 <= n);
    v.set(pos, ((x / 0x1000000) % 0x100) as u8);
    v.set(pos + 1, ((x / 0x10000) % 0x100) as u8);
    v.set(pos + 2, ((x / 0x100) % 0x100) as u8);
    v.set(pos + 3, (x % 0x100) as u8);
    assert(v@ =~= patch4(old(v)@, pos as int, bytes32(x as int)));
}

/// The total payload size of `packets`.
fn payload_size(packets: &[MediaPacket]) -> (n: u64)
    requires
        payload_total(packets@) <= u64::MAX,
    ensures
        n == payload_total(packets@),
{
    let mut n: u64 = 0;
    let mut i: usize = 0;
    while i < packets.len()
        invariant
            i <= packets@.len(),
            payload_total(packets@) <= u64::MAX,
            n == payload_total(packets@.subrange(0, i as int)),
        decreases packets@.len() - i,
    {
        assert(packets@.subrange(0, i + 1).drop_last() =~= packets@.subrange(0, i as int));
        proof {
            lemma_payload_total_prefix(packets@, i + 1);
        }
        n = n + packets[i].payload.len() as u64;
        i += 1;
    }
    assert(packets@.subrange(0, i as int) =~= packets@);
    n
}

proof fn lemma_payload_total_prefix(ps: Seq<MediaPacket>, i: int)
    requires
        0 <= i <= ps.len(),
    ensures
        payload_total(ps.subrange(0, i)) <= payload_total(ps),
        0 <= payload_total(ps.subrange(0, i)),
    decreases ps.len() - i,
{
    if i < ps.len() {
        assert(ps.subrange(0, i + 1).drop_last() =~= ps.subrange(0, i));
        lemma_payload_total_prefix(ps, i + 1);
    } else {
        assert(ps.subrange(0, i) =~= ps);
    }
    lemma_payload_total_nonneg(ps.subrange(0, i));
}

proof fn lemma_payload_total_nonneg(ps: Seq<MediaPacket>)
    ensures
        0 <= payload_total(ps),
    decreases ps.len(),
{
    if ps.len() > 0 {
        lemma_payload_total_nonneg(ps.drop_last());
    }
}

/// Room to build a `moof` for tracks `ts`: every run's table and all the
/// boxes fit a `usize`, the composition offsets can be computed, and the
/// data offsets (payload sizes included) fit a `u64`.
pub open spec fn moof_fits(ts: Seq<(u32, Seq<MediaPacket>)>) -> bool {
    &&& forall|k: int| 0 <= k < ts.len() ==> offsets_fit(#[trigger] ts[k].1)
    &&& trafs_room(ts) + 1024 <= usize::MAX
    &&& track_payloads(ts).len() + trafs_room(ts) + 1024 <= u64::MAX
}

/// An upper bound on the length of the `traf` boxes of tracks `ts`.
pub open spec fn trafs_room(ts: Seq<(u32, Seq<MediaPacket>)>) -> nat
    decreases ts.len(),
{
    if ts.len() == 0 {
        0
    } else {
        trafs_room(ts.drop_last()) + 16 * ts.last().1.len() + 256
    }
}

proof fn lemma_trun_samples_len(ps: Seq<MediaPacket>)
    ensures
        trun_samples(ps).len() == 16 * ps.len(),
    decreases ps.len(),
{
    if ps.len() > 0 {
        lemma_trun_samples_len(ps.drop_last());
    }
}

proof fn lemma_traf_len(id: u32, ps: Seq<MediaPacket>)
    ensures
        64 <= traf_box(id, ps).len() <= 16 * ps.len() + 96,
{
    reveal(traf_box);
    lemma_trun_samples_len(ps);
    lemma_box_len(TFHD, fullbox(0, 0x020000) + bytes32(id as int));
    lemma_box_len(TFDT, fullbox(1, 0) + bytes64(base_dts(ps) as int));
    let tb = fullbox(1, 0xf01) + bytes32((ps.len() as u32) as int) + bytes32(0) + trun_samples(ps);
    lemma_box_len(TRUN, tb);
    let inner = box_bytes(TFHD, fullbox(0, 0x020000) + bytes32(id as int)) + tfdt_box(ps)
        + trun_box(ps, 0);
    lemma_box_len(TRAF, inner);
}

proof fn lemma_payloads_len(ps: Seq<MediaPacket>)
    ensures
        payloads(ps).len() == payload_total(ps),
    decreases ps.len(),
{
    if ps.len() > 0 {
        lemma_payloads_len(ps.drop_last());
    }
}

/// The prefix sums of the `traf` boxes, payloads and room of tracks `ts`
/// grow one track at a time.
proof fn lemma_tracks_step(ts: Seq<(u32, Seq<MediaPacket>)>, k: int)
    requires
        0 <= k < ts.len(),
    ensures
        trafs(ts.subrange(0, k + 1)) == trafs(ts.subrange(0, k)) + traf_box(ts[k].0, ts[k].1),
        track_payloads(ts.subrange(0, k + 1)).len() == track_payloads(ts.subrange(0, k)).len()
            + payload_total(ts[k].1),
        trafs_room(ts.subrange(0, k + 1)) == trafs_room(ts.subrange(0, k)) + 16 * ts[k].1.len()
            + 256,
        payload_total(ts[k].1) >= 0,
{
    assert(ts.subrange(0, k + 1).drop_last() =~= ts.subrange(0, k));
    lemma_payloads_len(ts[k].1);
    lemma_payload_total_nonneg(ts[k].1);
}

/// The prefix sums stay below those of all the tracks.
proof fn lemma_tracks_prefix(ts: Seq<(u32, Seq<MediaPacket>)>, k: int)
    requires
        0 <= k <= ts.len(),
    ensures
        trafs(ts.subrange(0, k)).len() <= trafs(ts).len(),
        track_payloads(ts.subrange(0, k)).len() <= track_payloads(ts).len(),
        trafs_room(ts.subrange(0, k)) <= trafs_room(ts),
    decreases ts.len() - k,
{
    if k < ts.len() {
        lemma_tracks_step(ts, k);
        lemma_tracks_prefix(ts, k + 1);
    } else {
        assert(ts.subrange(0, k) =~= ts);
    }
}

proof fn lemma_trafs_within_room(ts: Seq<(u32, Seq<MediaPacket>)>)
    ensures
        trafs(ts).len() <= trafs_room(ts),
    decreases ts.len(),
{
    if ts.len() > 0 {
        lemma_trafs_within_room(ts.drop_last());
        lemma_traf_len(ts.last().0, ts.last().1);
    }
}

/// The `moof` box of `tracks` in fragment `sequence`.
pub fn write_moof(tracks: &Vec<(u32, Vec<MediaPacket>)>, sequence: u32) -> (r: Result<
    Vec<u8>,
    Mp4Error,
>)
    requires
        moof_fits(tracks_view(tracks@)),
    ensures
        r matches Ok(v) && v@ == moof_box(tracks_view(tracks@), sequence),
{
    let ghost tv = tracks_view(tracks@);
    let mut moof_body = write_mfhd(sequence);
    let ghost mfhd = moof_body@;
    proof {
        lemma_box_len(MFHD, fullbox(0, 0) + bytes32(sequence as int));
        assert(tv.subrange(0, 0) =~= Seq::<(u32, Seq<MediaPacket>)>::empty());
    }
    let mut patches: Vec<usize> = Vec::new();
    let mut track_sizes: Vec<u64> = Vec::new();
    let mut k: usize = 0;
    while k < tracks.len()
        invariant
            k <= tracks@.len(),
            tv == tracks_view(tracks@),
            moof_fits(tv),
            mfhd.len() == 16,
            moof_body@ == mfhd + trafs(tv.subrange(0, k as int)),
            moof_body@.len() <= 16 + trafs_room(tv.subrange(0, k as int)),
            patches@.len() == k,
            track_sizes@.len() == k,
            forall|j: int|
                0 <= j < k ==> #[trigger] patches@[j] == 16 + trafs(tv.subrange(0, j)).len() + 60,
            forall|j: int| 0 <= j < k ==> #[trigger] track_sizes@[j] == payload_total(tv[j].1),
        decreases tracks@.len() - k,
    {
        proof {
            lemma_tracks_step(tv, k as int);
            lemma_tracks_prefix(tv, k as int + 1);
            assert(tv[k as int] == (tracks@[k as int].0, tracks@[k as int].1@));
        }
        let (track_id, packets) = (tracks[k].0, &tracks[k].1);
        let (traf, patch_pos) = match write_traf(track_id, packets.as_slice()) {
            Ok(t) => t,
            Err(e) => {
                return Err(e);
            },
        };
        let before = moof_body.len();
        patches.push(before + patch_pos);
        track_sizes.push(payload_size(packets.as_slice()));
        append(&mut moof_body, traf.as_slice());
        proof {
            lemma_traf_len(track_id, packets@);
        }
        k += 1;
    }
    assert(tv.subrange(0, k as int) =~= tv);
    let ghost raw = moof_body@;
    let moof_size = 8 + moof_body.len() as u64;
    let mdat_payload_offset = moof_size + 8;
    let mut cumulative: u64 = 0;
    let mut i: usize = 0;
    while i < patches.len()
        invariant
            i <= patches@.len(),
            patches@.len() == track_sizes@.len() == tv.len(),
            moof_fits(tv),
            raw == mfhd + trafs(tv),
            mfhd.len() == 16,
            moof_body@.len() == raw.len(),
            mdat_payload_offset == raw.len() + 16,
            raw.len() <= 16 + trafs_room(tv),
            forall|j: int|
                0 <= j < tv.len() ==> #[trigger] patches@[j] == 16 + trafs(tv.subrange(0, j)).len()
                    + 60,
            forall|j: int| 0 <= j < tv.len() ==> #[trigger] track_sizes@[j] == payload_total(tv[j].1),
            cumulative == track_payloads(tv.subrange(0, i as int)).len(),
            moof_patches(raw, tv, 0, 16, 0, raw.len() as int + 16) == moof_patches(
                moof_body@,
                tv,
                i as int,
                16 + trafs(tv.subrange(0, i as int)).len() as int,
                cumulative as int,
                raw.len() as int + 16,
            ),
        decreases patches@.len() - i,
    {
        proof {
            lemma_tracks_step(tv, i as int);
            lemma_tracks_prefix(tv, i as int + 1);
            lemma_tracks_prefix(tv, i as int);
            lemma_traf_len(tv[i as int].0, tv[i as int].1);
            lemma_trafs_within_room(tv);
        }
        let data_offset = mdat_payload_offset + cumulative;
        patch_u32_be(&mut moof_body, patches[i], data_offset);
        cumulative = cumulative + track_sizes[i];
        i += 1;
    }
    proof {
        lemma_box_len(MOOF, moof_body@);
    }
    Ok(write_box(MOOF, moof_body.as_slice()))
}

/// The `mdat` box holding the payloads of `tracks`, track after track.
pub fn write_mdat(tracks: &Vec<(u32, Vec<MediaPacket>)>) -> (r: Vec<u8>)
    requires
        track_payloads(tracks_view(tracks@)).len() + 64 <= usize::MAX,
    ensures
        r@ == mdat_box(tracks_view(tracks@)),
{
    let ghost tv = tracks_view(tracks@);
    let mut body = Vec::new();
    let mut k: usize = 0;
    assert(tv.subrange(0, 0) =~= Seq::<(u32, Seq<MediaPacket>)>::empty());
    while k < tracks.len()
        invariant
            k <= tracks@.len(),
            tv == tracks_view(tracks@),
            track_payloads(tv).len() + 64 <= usize::MAX,
            body@ == track_payloads(tv.subrange(0, k as int)),
        decreases tracks@.len() - k,
    {
        proof {
            lemma_tracks_step(tv, k as int);
            lemma_tracks_prefix(tv, k as int + 1);
            assert(tv.subrange(0, k + 1).drop_last() =~= tv.subrange(0, k as int));
        }
        let packets = &tracks[k].1;
        let ghost start = body@;
        let mut i: usize = 0;
        assert(packets@.subrange(0, 0) =~= Seq::<MediaPacket>::empty());
        while i < packets.len()
            invariant
                i <= packets@.len(),
                body@ == start + payloads(packets@.subrange(0, i as int)),
                start + payloads(packets@) == track_payloads(tv.subrange(0, k + 1)),
                track_payloads(tv.subrange(0, k + 1)).len() + 64 <= usize::MAX,
            decreases packets@.len() - i,
        {
            proof {
                assert(packets@.subrange(0, i + 1).drop_last() =~= packets@.subrange(0, i as int));
                lemma_payloads_prefix(packets@, i as int + 1);
            }
            append(&mut body, packets[i].payload.as_slice());
            assert(body@ =~= start + payloads(packets@.subrange(0, i + 1)));
            i += 1;
        }
        assert(packets@.subrange(0, i as int) =~= packets@);
        k += 1;
    }
    assert(tv.subrange(0, k as int) =~= tv);
    write_box(MDAT, body.as_slice())
}

proof fn lemma_payloads_prefix(ps: Seq<MediaPacket>, i: int)
    requires
        0 <= i <= ps.len(),
    ensures
        payloads(ps.subrange(0, i)).len() <= payloads(ps).len(),
    decreases ps.len() - i,
{
    if i < ps.len() {
        assert(ps.subrange(0, i + 1).drop_last() =~= ps.subrange(0, i));
        lemma_payloads_prefix(ps, i + 1);
    } else {
        assert(ps.subrange(0, i) =~= ps);
    }
}

/// One step of the configuration hash: `h * 31 + v`, wrapping.
pub open spec fn mix(h: u64, v: u64) -> u64 {
    vstd::wrapping::u64_specs::wrapping_add(vstd::wrapping::u64_specs::wrapping_mul(h, 31), v)
}

/// `h` mixed with each byte of `b` in turn.
pub open spec fn mix_bytes(h: u64, b: Seq<u8>) -> u64
    decreases b.len(),
{
    if b.len() == 0 {
        h
    } else {
        mix(mix_bytes(h, b.drop_last()), b.last() as u64)
    }
}

/// The number a codec contributes to the configuration hash.
pub open spec fn codec_value(c: CodecId) -> u64 {
    match c {
        CodecId::H264 => 1,
        CodecId::H265 => 2,
        CodecId::Aac => 3,
        CodecId::G711A => 4,
        CodecId::G711U => 5,
        CodecId::Mp3 => 6,
        CodecId::Opus => 7,
        CodecId::PcmU8 => 8,
        CodecId::PcmS16 => 9,
        CodecId::Unknown(v) => (10 + v) as u64,
    }
}

/// `acc` mixed with the fields of a track configuration that shape its
/// init segment.
pub open spec fn hash_config(acc: u64, c: TrackConfig) -> u64 {
    let h = mix(mix(acc, c.track_id as u64), codec_value(c.codec));
    let h = match config_bytes(c.codec_config) {
        Some(b) => mix_bytes(h, b),
        None => h,
    };
    mix(
        mix(
            mix(mix(mix(h, c.timescale as u64), c.width as u64), c.height as u64),
            c.sample_rate as u64,
        ),
        c.channel_count as u64,
    )
}

/// The hash of the configurations `cs`, folded in order from 0.
pub open spec fn configs_hash(cs: Seq<TrackConfig>) -> u64
    decreases cs.len(),
{
    if cs.len() == 0 {
        0
    } else {
        hash_config(configs_hash(cs.drop_last()), cs.last())
    }
}

fn mix_exec(h: u64, v: u64) -> (r: u64)
    ensures
        r == mix(h, v),
{
    h.wrapping_mul(31).wrapping_add(v)
}

fn codec_number(c: CodecId) -> (r: u64)
    ensures
        r == codec_value(c),
{
    match c {
        CodecId::H264 => 1,
        CodecId::H265 => 2,
        CodecId::Aac => 3,
        CodecId::G711A => 4,
        CodecId::G711U => 5,
        CodecId::Mp3 => 6,
        CodecId::Opus => 7,
        CodecId::PcmU8 => 8,
        CodecId::PcmS16 => 9,
        CodecId::Unknown(v) => 10 + v as u64,
    }
}

fn hash_config_exec(acc: u64, c: &TrackConfig) -> (r: u64)
    ensures
        r == hash_config(acc, *c),
{
    let mut h = mix_exec(acc, c.track_id as u64);
    h = mix_exec(h, codec_number(c.codec));
    match c.codec_config.bytes() {
        Some(b) => {
            let ghost start = h;
            let mut i: usize = 0;
            assert(b@.subrange(0, 0) =~= Seq::<u8>::empty());
            while i < b.len()
                invariant
                    i <= b@.len(),
                    h == mix_bytes(start, b@.subrange(0, i as int)),
                decreases b@.len() - i,
            {
                assert(b@.subrange(0, i + 1).drop_last() =~= b@.subrange(0, i as int));
                h = mix_exec(h, b[i] as u64);
                i += 1;
            }
            assert(b@.subrange(0, i as int) =~= b@);
        },
        None => {},
    }
    h = mix_exec(h, c.timescale as u64);
    h = mix_exec(h, c.width as u64);
    h = mix_exec(h, c.height as u64);
    h = mix_exec(h, c.sample_rate as u64);
    mix_exec(h, c.channel_count as u64)
}

fn configs_hash_exec(cs: &Vec<TrackConfig>) -> (r: u64)
    ensures
        r == configs_hash(cs@),
{
    let mut h: u64 = 0;
    let mut i: usize = 0;
    assert(cs@.subrange(0, 0) =~= Seq::<TrackConfig>::empty());
    while i < cs.len()
        invariant
            i <= cs@.len(),
            h == configs_hash(cs@.subrange(0, i as int)),
        decreases cs@.len() - i,
    {
        assert(cs@.subrange(0, i + 1).drop_last() =~= cs@.subrange(0, i as int));
        h = hash_config_exec(h, &cs[i]);
        i += 1;
    }
    assert(cs@.subrange(0, i as int) =~= cs@);
    h
}

/// A cut packet run ends after its last keyframe; without a keyframe it is
/// the whole run.
pub open spec fn last_key(ps: Seq<MediaPacket>) -> Option<int>
    decreases ps.len(),
{
    if ps.len() == 0 {
        None
    } else if ps.last().flags.is_keyframe {
        Some(ps.len() - 1)
    } else {
        last_key(ps.drop_last())
    }
}

/// Where a run of buffered packets is cut: after its last keyframe, or at
/// its end when it holds none.
pub open spec fn cut_of(ps: Seq<MediaPacket>) -> int {
    match last_key(ps) {
        Some(k) => k + 1,
        None => ps.len() as int,
    }
}

/// The packets a flush takes: for each non-empty buffer, in order, the
/// packets before its cut.
pub open spec fn segment_tracks(ts: Seq<(u32, Seq<MediaPacket>)>) -> Seq<(u32, Seq<MediaPacket>)>
    decreases ts.len(),
{
    if ts.len() == 0 {
        Seq::empty()
    } else {
        let rest = segment_tracks(ts.drop_last());
        let last = ts.last();
        if last.1.len() == 0 {
            rest
        } else {
            rest.push((last.0, last.1.subrange(0, cut_of(last.1))))
        }
    }
}

/// The packets a flush leaves buffered: each buffer from its cut on.
pub open spec fn kept_tracks(ts: Seq<(u32, Seq<MediaPacket>)>) -> Seq<(u32, Seq<MediaPacket>)> {
    Seq::new(ts.len(), |k: int| (ts[k].0, ts[k].1.subrange(cut_of(ts[k].1), ts[k].1.len() as int)))
}

/// Track configurations are kept in increasing track id order.
pub open spec fn config_ids_sorted(cs: Seq<TrackConfig>) -> bool {
    forall|i: int, j: int| 0 <= i < j < cs.len() ==> cs[i].track_id < cs[j].track_id
}

/// Packet buffers are kept in increasing track id order.
pub open spec fn buffer_ids_sorted(ts: Seq<(u32, Seq<MediaPacket>)>) -> bool {
    forall|i: int, j: int| 0 <= i < j < ts.len() ==> ts[i].0 < ts[j].0
}

/// `i` is where track `id` belongs among the increasing `ids`: every id
/// before it is smaller, and the one at it (if any) is not.
pub open spec fn slot(ids: Seq<u32>, id: u32, i: int) -> bool {
    &&& 0 <= i <= ids.len()
    &&& forall|j: int| 0 <= j < i ==> ids[j] < id
    &&& i < ids.len() ==> ids[i] >= id
}

/// The track ids of configurations `cs`.
pub open spec fn config_ids(cs: Seq<TrackConfig>) -> Seq<u32> {
    cs.map_values(|c: TrackConfig| c.track_id)
}

/// The track ids of buffers `ts`.
pub open spec fn buffer_ids(ts: Seq<(u32, Seq<MediaPacket>)>) -> Seq<u32> {
    ts.map_values(|t: (u32, Seq<MediaPacket>)| t.0)
}

/// `cs` with `c` put at slot `i`: replacing the configuration of the same
/// track, or inserted there.
pub open spec fn place_config(cs: Seq<TrackConfig>, i: int, c: TrackConfig) -> Seq<TrackConfig> {
    if i < cs.len() && cs[i].track_id == c.track_id {
        cs.update(i, c)
    } else {
        cs.insert(i, c)
    }
}

/// `ts` with packet `p` added at slot `i`: appended to the buffer of its
/// track, or a new buffer holding it inserted there.
pub open spec fn place_packet(ts: Seq<(u32, Seq<MediaPacket>)>, i: int, p: MediaPacket) -> Seq<
    (u32, Seq<MediaPacket>),
> {
    if i < ts.len() && ts[i].0 == p.track_id {
        ts.update(i, (p.track_id, ts[i].1.push(p)))
    } else {
        ts.insert(i, (p.track_id, seq![p]))
    }
}

fn cut_index(ps: &Vec<MediaPacket>) -> (c: usize)
    ensures
        c == cut_of(ps@),
{
    let mut last: Option<usize> = None;
    let mut i: usize = 0;
    assert(ps@.subrange(0, 0) =~= Seq::<MediaPacket>::empty());
    while i < ps.len()
        invariant
            i <= ps@.len(),
            match last_key(ps@.subrange(0, i as int)) {
                Some(k) => 0 <= k < i && last == Some(k as usize),
                None => last is None,
            },
        decreases ps@.len() - i,
    {
        assert(ps@.subrange(0, i + 1).drop_last() =~= ps@.subrange(0, i as int));
        if ps[i].flags.is_keyframe {
            last = Some(i);
        }
        i += 1;
    }
    assert(ps@.subrange(0, i as int) =~= ps@);
    match last {
        Some(k) => k + 1,
        None => ps.len(),
    }
}

proof fn lemma_last_key_bound(ps: Seq<MediaPacket>)
    ensures
        0 <= cut_of(ps) <= ps.len(),
    decreases ps.len(),
{
    if ps.len() > 0 && !ps.last().flags.is_keyframe {
        lemma_last_key_bound(ps.drop_last());
    }
}

/// A flush takes nothing exactly when every buffer is empty.
proof fn lemma_segment_empty(ts: Seq<(u32, Seq<MediaPacket>)>)
    requires
        segment_tracks(ts).len() == 0,
    ensures
        forall|k: int| 0 <= k < ts.len() ==> (#[trigger] ts[k]).1.len() == 0,
    decreases ts.len(),
{
    if ts.len() > 0 {
        let rest = segment_tracks(ts.drop_last());
        if ts.last().1.len() == 0 {
            lemma_segment_empty(ts.drop_last());
            assert forall|k: int| 0 <= k < ts.len() implies (#[trigger] ts[k]).1.len() == 0 by {
                if k < ts.len() - 1 {
                    assert(ts.drop_last()[k] == ts[k]);
                }
            }
        } else {
            assert(segment_tracks(ts).len() == rest.len() + 1);
        }
    }
}

/// The init segment for tracks `cs`: `ftyp` followed by `moov`.
fn write_init_segment(cs: &Vec<TrackConfig>) -> (r: Result<Vec<u8>, Mp4Error>)
    requires
        configs_len(cs@) + 65536 <= usize::MAX,
        cs@.len() > 0 ==> cs@.last().track_id < u32::MAX,
    ensures
        match init_segment(cs@) {
            Ok(b) => r matches Ok(v) && v@ == b,
            Err(e) => r == Err::<Vec<u8>, Mp4Error>(e),
        },
{
    if cs.len() == 0 {
        return Err(Mp4Error::invalid_input(3501, Some("no tracks configured")));
    }
    let mut out = write_ftyp();
    match write_moov(cs) {
        Ok(moov) => {
            append(&mut out, moov.as_slice());
            Ok(out)
        },
        Err(e) => Err(e),
    }
}

/// A flush cuts each buffer right after its last keyframe: the packets left
/// buffered hold no keyframe, and when the buffer held one, the packets
/// taken end with it.
pub proof fn lemma_cut_after_last_keyframe(ps: Seq<MediaPacket>)
    ensures
        0 <= cut_of(ps) <= ps.len(),
        forall|i: int| cut_of(ps) <= i < ps.len() ==> !(#[trigger] ps[i]).flags.is_keyframe,
        (exists|i: int| 0 <= i < ps.len() && (#[trigger] ps[i]).flags.is_keyframe) ==> ps[cut_of(
            ps,
        ) - 1].flags.is_keyframe,
    decreases ps.len(),
{
    if ps.len() > 0 && !ps.last().flags.is_keyframe {
        let rest = ps.drop_last();
        lemma_cut_after_last_keyframe(rest);
        assert forall|i: int| cut_of(ps) <= i < ps.len() implies !(#[trigger] ps[i]).flags.is_keyframe by {
            if i < ps.len() - 1 {
                assert(rest[i] == ps[i]);
            }
        }
        if exists|i: int| 0 <= i < ps.len() && (#[trigger] ps[i]).flags.is_keyframe {
            let i = choose|i: int| 0 <= i < ps.len() && (#[trigger] ps[i]).flags.is_keyframe;
            assert(rest[i] == ps[i]);
            assert(rest[cut_of(rest) - 1] == ps[cut_of(ps) - 1]);
        }
    }
}

/// Configuring a track puts its configuration in place and keeps the
/// configurations of every other track; the track ids stay increasing.
pub proof fn lemma_configure_replaces_only_its_track(cs: Seq<TrackConfig>, i: int, c: TrackConfig)
    requires
        config_ids_sorted(cs),
        slot(config_ids(cs), c.track_id, i),
    ensures
        config_ids_sorted(place_config(cs, i, c)),
        place_config(cs, i, c)[i] == c,
        forall|j: int|
            0 <= j < cs.len() && cs[j].track_id != c.track_id ==> exists|k: int|
                0 <= k < place_config(cs, i, c).len() && #[trigger] place_config(cs, i, c)[k]
                    == cs[j],
        forall|k: int|
            0 <= k < place_config(cs, i, c).len() && k != i ==> place_config(cs, i, c)[k].track_id
                != c.track_id,
{
    let p = place_config(cs, i, c);
    assert forall|j: int| 0 <= j < i implies #[trigger] cs[j].track_id < c.track_id by {
        assert(config_ids(cs)[j] == cs[j].track_id);
    }
    if i < cs.len() {
        assert(config_ids(cs)[i] == cs[i].track_id);
    }
    assert forall|j: int| 0 <= j < cs.len() && cs[j].track_id != c.track_id implies exists|k: int|
        0 <= k < p.len() && #[trigger] p[k] == cs[j] by {
        if j < i {
            assert(p[j] == cs[j]);
        } else if i < cs.len() && cs[i].track_id == c.track_id {
            assert(j != i);
            assert(p[j] == cs[j]);
        } else {
            assert(p[j + 1] == cs[j]);
        }
    }
}

/// Output from a segment flush.
#[derive(Debug)]
pub struct SegmentOutput {
    /// The init segment (`ftyp` + `moov`) if it was generated or updated.
    pub init_segment: Option<Vec<u8>>,
    /// The media segment (`moof` + `mdat`).
    pub media_segment: Option<Vec<u8>>,
    /// Segment sequence number.
    pub sequence: u32,
}

/// Fragmented MP4 muxer that builds MSE-compatible segments.
pub struct FragmentedMp4Muxer {
    configs: Vec<TrackConfig>,
    buffers: Vec<(u32, Vec<MediaPacket>)>,
    sequence: u32,
    init_segment: Option<Vec<u8>>,
    last_init_hash: u64,
}

impl FragmentedMp4Muxer {
    /// The track configurations, in track id order.
    pub closed spec fn configs(self) -> Seq<TrackConfig> {
        self.configs@
    }

    /// The buffered packets of each track, in track id order.
    pub closed spec fn buffered(self) -> Seq<(u32, Seq<MediaPacket>)> {
        tracks_view(self.buffers@)
    }

    /// The sequence number of the next segment.
    pub closed spec fn sequence(self) -> u32 {
        self.sequence
    }

    /// The last init segment emitted, if any.
    pub closed spec fn init(self) -> Option<Seq<u8>> {
        match self.init_segment {
            Some(v) => Some(v@),
            None => None,
        }
    }

    /// The configuration hash the last init segment was built for.
    pub closed spec fn init_hash(self) -> u64 {
        self.last_init_hash
    }

    #[verifier::type_invariant]
    closed spec fn wf(self) -> bool {
        &&& config_ids_sorted(self.configs@)
        &&& buffer_ids_sorted(tracks_view(self.buffers@))
    }

    /// A muxer without tracks, at sequence 1.
    pub fn new() -> (m: Self)
        ensures
            m.configs() == Seq::<TrackConfig>::empty(),
            m.buffered() == Seq::<(u32, Seq<MediaPacket>)>::empty(),
            m.sequence() == 1,
            m.init() is None,
            m.init_hash() == 0,
    {
        let m = FragmentedMp4Muxer {
            configs: Vec::new(),
            buffers: Vec::new(),
            sequence: 1,
            init_segment: None,
            last_init_hash: 0,
        };
        assert(tracks_view(m.buffers@) =~= Seq::<(u32, Seq<MediaPacket>)>::empty());
        m
    }

    /// Add or update a track configuration.
    pub fn configure(&mut self, config: TrackConfig)
        ensures
            exists|i: int|
                slot(config_ids(old(self).configs()), config.track_id, i) && final(self).configs()
                    == place_config(old(self).configs(), i, config),
            final(self).buffered() == old(self).buffered(),
            final(self).sequence() == old(self).sequence(),
            final(self).init() == old(self).init(),
            final(self).init_hash() == old(self).init_hash(),
    {
        proof {
            use_type_invariant(&*self);
        }
        let id = config.track_id;
        let mut i: usize = 0;
        while i < self.configs.len() && self.configs[i].track_id < id
            invariant
                i <= self.configs@.len(),
                forall|j: int| 0 <= j < i ==> self.configs@[j].track_id < id,
            decreases self.configs@.len() - i,
        {
            i += 1;
        }
        let ghost old_cs = self.configs@;
        assert(old_cs == old(self).configs());
        assert(slot(config_ids(old_cs), id, i as int));
        let mut cs = Vec::new();
        core::mem::swap(&mut cs, &mut self.configs);
        if i < cs.len() && cs[i].track_id == id {
            cs.set(i, config);
        } else {
            cs.insert(i, config);
        }
        assert(cs@ =~= place_config(old_cs, i as int, config));
        self.configs = cs;
        assert(slot(config_ids(old_cs), id, i as int) && self.configs() == place_config(
            old_cs,
            i as int,
            config,
        ));
    }

    /// Push a packet into the buffer of its track; it is always accepted.
    pub fn push_packet(&mut self, packet: MediaPacket) -> (r: Result<(), Mp4Error>)
        ensures
            r is Ok,
            exists|i: int|
                slot(buffer_ids(old(self).buffered()), packet.track_id, i) && final(self).buffered()
                    == place_packet(old(self).buffered(), i, packet),
            final(self).configs() == old(self).configs(),
            final(self).sequence() == old(self).sequence(),
            final(self).init() == old(self).init(),
            final(self).init_hash() == old(self).init_hash(),
    {
        proof {
            use_type_invariant(&*self);
        }
        let id = packet.track_id;
        let ghost old_tv = tracks_view(self.buffers@);
        let mut i: usize = 0;
        while i < self.buffers.len() && self.buffers[i].0 < id
            invariant
                i <= self.buffers@.len(),
                old_tv == tracks_view(self.buffers@),
                forall|j: int| 0 <= j < i ==> self.buffers@[j].0 < id,
            decreases self.buffers@.len() - i,
        {
            i += 1;
        }
        assert(old_tv == old(self).buffered());
        assert(slot(buffer_ids(old_tv), id, i as int));
        if i < self.buffers.len() && self.buffers[i].0 == id {
            let mut bufs = Vec::new();
            core::mem::swap(&mut bufs, &mut self.buffers);
            let (tid, mut ps) = bufs.remove(i);
            ps.push(packet);
            bufs.insert(i, (tid, ps));
            assert(tracks_view(bufs@) =~= place_packet(old_tv, i as int, packet));
            self.buffers = bufs;
        } else {
            let mut bufs = Vec::new();
            core::mem::swap(&mut bufs, &mut self.buffers);
            let mut ps = Vec::new();
            ps.push(packet);
            bufs.insert(i, (id, ps));
            assert(tracks_view(bufs@) =~= place_packet(old_tv, i as int, packet));
            self.buffers = bufs;
        }
        assert(slot(buffer_ids(old_tv), id, i as int) && self.buffered() == place_packet(
            old_tv,
            i as int,
            packet,
        ));
        Ok(())
    }

    /// Whether the next flush emits an init segment: none was emitted yet,
    /// or the configurations' hash changed since.
    pub open spec fn renews_init(self) -> bool {
        self.init() is None || configs_hash(self.configs()) != self.init_hash()
    }

    /// Flush a media segment. Returns `None` if there is nothing to flush.
    ///
    /// Each track is cut at its last keyframe if one is present, retaining the
    /// trailing samples for the next segment.
    pub fn flush_segment(&mut self) -> (r: Result<Option<SegmentOutput>, Mp4Error>)
        requires
            moof_fits(segment_tracks(old(self).buffered())),
            track_payloads(segment_tracks(old(self).buffered())).len() + 64 <= usize::MAX,
            configs_len(old(self).configs()) + 65536 <= usize::MAX,
            old(self).configs().len() > 0 ==> old(self).configs().last().track_id < u32::MAX,
            segment_tracks(old(self).buffered()).len() > 0 ==> old(self).sequence() < u32::MAX,
        ensures
            final(self).configs() == old(self).configs(),
            final(self).buffered() == kept_tracks(old(self).buffered()),
            segment_tracks(old(self).buffered()).len() == 0 ==> {
                &&& r matches Ok(None)
                &&& final(self).buffered() == old(self).buffered()
                &&& final(self).sequence() == old(self).sequence()
                &&& final(self).init() == old(self).init()
                &&& final(self).init_hash() == old(self).init_hash()
            },
            segment_tracks(old(self).buffered()).len() > 0 && old(self).renews_init() ==> (
            init_segment(old(self).configs()) matches Err(e) ==> {
                &&& r == Err::<Option<SegmentOutput>, Mp4Error>(e)
                &&& final(self).sequence() == old(self).sequence()
                &&& final(self).init() == old(self).init()
                &&& final(self).init_hash() == old(self).init_hash()
            }),
            segment_tracks(old(self).buffered()).len() > 0 && !(old(self).renews_init()
                && init_segment(old(self).configs()) is Err) ==> {
                &&& r matches Ok(Some(out))
                &&& out.sequence == old(self).sequence()
                &&& out.media_segment matches Some(m) && m@ == moof_box(
                    segment_tracks(old(self).buffered()),
                    old(self).sequence(),
                ) + mdat_box(segment_tracks(old(self).buffered()))
                &&& final(self).sequence() == old(self).sequence() + 1
                &&& if old(self).renews_init() {
                    &&& out.init_segment matches Some(v) && init_segment(old(self).configs()) == Ok::<
                        Seq<u8>,
                        Mp4Error,
                    >(v@) && final(self).init() == Some(v@)
                    &&& final(self).init_hash() == configs_hash(old(self).configs())
                } else {
                    &&& out.init_segment is None
                    &&& final(self).init() == old(self).init()
                    &&& final(self).init_hash() == old(self).init_hash()
                }
            },
    {
        proof {
            use_type_invariant(&*self);
        }
        let mut bufs: Vec<(u32, Vec<MediaPacket>)> = Vec::new();
        core::mem::swap(&mut bufs, &mut self.buffers);
        let ghost tv = tracks_view(bufs@);
        let total = bufs.len();
        let ghost n = total as int;
        assert(tv == old(self).buffered());
        let mut taken: Vec<(u32, Vec<MediaPacket>)> = Vec::new();
        let mut kept: Vec<(u32, Vec<MediaPacket>)> = Vec::new();
        let mut k: usize = 0;
        proof {
            assert(tv.subrange(0, 0) =~= Seq::<(u32, Seq<MediaPacket>)>::empty());
            assert(tracks_view(bufs@) =~= tv.subrange(0, n));
            assert(kept_tracks(tv.subrange(0, 0)) =~= Seq::<(u32, Seq<MediaPacket>)>::empty());
            assert(tracks_view(kept@) =~= Seq::<(u32, Seq<MediaPacket>)>::empty());
            assert(tracks_view(taken@) =~= Seq::<(u32, Seq<MediaPacket>)>::empty());
        }
        while bufs.len() > 0
            invariant
                k + bufs@.len() == n,
                tv.len() == n,
                n <= usize::MAX,
                tracks_view(bufs@) == tv.subrange(k as int, n),
                tracks_view(taken@) == segment_tracks(tv.subrange(0, k as int)),
                tracks_view(kept@) == kept_tracks(tv.subrange(0, k as int)),
            decreases bufs@.len(),
        {
            let ghost before_bufs = bufs@;
            let (id, mut ps) = bufs.remove(0);
            proof {
                assert(tracks_view(before_bufs)[0] == tv[k as int]);
                assert forall|j: int| 0 <= j < bufs@.len() implies #[trigger] tracks_view(bufs@)[j]
                    == tv.subrange(k + 1, n)[j] by {
                    assert(bufs@[j] == before_bufs[j + 1]);
                    assert(tracks_view(before_bufs)[j + 1] == tv.subrange(k as int, n)[j + 1]);
                }
                assert(tracks_view(bufs@) =~= tv.subrange(k + 1, n));
                assert(tv.subrange(0, k + 1).drop_last() =~= tv.subrange(0, k as int));
                assert(tv.subrange(0, k + 1).last() == tv[k as int]);
                lemma_last_key_bound(ps@);
            }
            let ghost before_taken = taken@;
            let ghost before_kept = kept@;
            if ps.len() == 0 {
                let ghost p0 = ps@;
                kept.push((id, ps));
                assert(p0.subrange(0, 0) =~= p0);
                assert(tracks_view(kept@) =~= tracks_view(before_kept).push((id, p0)));
                assert(tracks_view(taken@) =~= segment_tracks(tv.subrange(0, k + 1)));
            } else {
                let cut = cut_index(&ps);
                let tail = ps.split_off(cut);
                taken.push((id, ps));
                kept.push((id, tail));
                assert(tracks_view(kept@) =~= tracks_view(before_kept).push((id, tail@)));
                assert(tracks_view(taken@) =~= tracks_view(before_taken).push(
                    (id, tv[k as int].1.subrange(0, cut as int)),
                ));
            }
            proof {
                let t = tv[k as int];
                let b = kept_tracks(tv.subrange(0, k + 1));
                let c = kept_tracks(tv.subrange(0, k as int)).push(
                    (t.0, t.1.subrange(cut_of(t.1), t.1.len() as int)),
                );
                assert forall|j: int| 0 <= j < b.len() implies b[j] == c[j] by {
                    if j < k {
                        assert(tv.subrange(0, k + 1)[j] == tv.subrange(0, k as int)[j]);
                    }
                }
                assert(b =~= c);
            }
            k += 1;
        }
        proof {
            assert(tv.subrange(0, n) =~= tv);
            assert(buffer_ids_sorted(tracks_view(kept@)));
        }
        self.buffers = kept;
        if taken.len() == 0 {
            proof {
                lemma_segment_empty(tv);
                assert forall|j: int| 0 <= j < tv.len() implies #[trigger] kept_tracks(tv)[j]
                    == tv[j] by {
                    assert(tv[j].1 =~= Seq::<MediaPacket>::empty());
                    assert(tv[j].1.subrange(0, 0) =~= tv[j].1);
                }
                assert(kept_tracks(tv) =~= tv);
            }
            return Ok(None);
        }
        let h = configs_hash_exec(&self.configs);
        let renew = match &self.init_segment {
            None => true,
            Some(_) => h != self.last_init_hash,
        };
        let init_out = if renew {
            let init = match write_init_segment(&self.configs) {
                Ok(v) => v,
                Err(e) => {
                    return Err(e);
                },
            };
            let mut copy = Vec::new();
            append(&mut copy, init.as_slice());
            assert(copy@ =~= init@);
            self.last_init_hash = h;
            self.init_segment = Some(init);
            Some(copy)
        } else {
            None
        };
        let moof = match write_moof(&taken, self.sequence) {
            Ok(v) => v,
            Err(e) => {
                return Err(e);
            },
        };
        let mdat = write_mdat(&taken);
        let mut media = moof;
        append(&mut media, mdat.as_slice());
        let sequence = self.sequence;
        self.sequence = self.sequence + 1;
        Ok(Some(SegmentOutput { init_segment: init_out, media_segment: Some(media), sequence }))
    }
}

impl Default for FragmentedMp4Muxer {
    fn default() -> (m: Self)
        ensures
            m.configs() == Seq::<TrackConfig>::empty(),
            m.buffered() == Seq::<(u32, Seq<MediaPacket>)>::empty(),
            m.sequence() == 1,
            m.init() is None,
            m.init_hash() == 0,
    {
        Self::new()
    }
}


} // verus!
