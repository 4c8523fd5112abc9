//! FLV audio tag headers.

use vstd::prelude::*;

use crate::flv::error::FlvError;
use crate::isobmff::boxes::append;
use crate::media::CodecId;

verus! {

/// Audio codec identifiers in the first byte of an FLV audio tag.
#[derive(Debug, Clone, Copy, PartialEq, Eq)]
pub enum SoundFormat {
    LinearPcm,
    AdPcm,
    Mp3,
    LinearPcmLe,
    Nellymoser16k,
    Nellymoser8k,
    Nellymoser,
    G711A,
    G711U,
    Aac,
    Speex,
    Mp3_8k,
    DeviceSpecific,
    Unknown(u8),
}

/// The sound format numbered `v`.
pub open spec fn sound_format_spec(v: u8) -> SoundFormat {
    if v == 0 {
        SoundFormat::LinearPcm
    } else if v == 1 {
        SoundFormat::AdPcm
    } else if v == 2 {
        SoundFormat::Mp3
    } else if v == 3 {
        SoundFormat::LinearPcmLe
    } else if v == 4 {
        SoundFormat::Nellymoser16k
    } else if v == 5 {
        SoundFormat::Nellymoser8k
    } else if v == 6 {
        SoundFormat::Nellymoser
    } else if v == 7 {
        SoundFormat::G711A
    } else if v == 8 {
        SoundFormat::G711U
    } else if v == 10 {
        SoundFormat::Aac
    } else if v == 11 {
        SoundFormat::Speex
    } else if v == 14 {
        SoundFormat::Mp3_8k
    } else if v == 15 {
        SoundFormat::DeviceSpecific
    } else {
        SoundFormat::Unknown(v)
    }
}

impl SoundFormat {
    /// The sound format numbered `v`.
    pub fn from_u8(v: u8) -> (f: Self)
        ensures
            f == sound_format_spec(v),
    {
        match v {
            0 => SoundFormat::LinearPcm,
            1 => SoundFormat::AdPcm,
            2 => SoundFormat::Mp3,
            3 => SoundFormat::LinearPcmLe,
            4 => SoundFormat::Nellymoser16k,
            5 => SoundFormat::Nellymoser8k,
            6 => SoundFormat::Nellymoser,
            7 => SoundFormat::G711A,
            8 => SoundFormat::G711U,
            10 => SoundFormat::Aac,
            11 => SoundFormat::Speex,
            14 => SoundFormat::Mp3_8k,
            15 => SoundFormat::DeviceSpecific,
            _ => SoundFormat::Unknown(v),
        }
    }

    /// The codec a sound format carries, for the codecs the containers know.
    pub fn to_codec_id(self) -> (c: Option<CodecId>)
        ensures
            c == match self {
                SoundFormat::Aac => Some(CodecId::Aac),
                SoundFormat::Mp3 | SoundFormat::Mp3_8k => Some(CodecId::Mp3),
                SoundFormat::G711A => Some(CodecId::G711A),
                SoundFormat::G711U => Some(CodecId::G711U),
                _ => None::<CodecId>,
            },
    {
        match self {
            SoundFormat::Aac => Some(CodecId::Aac),
            SoundFormat::Mp3 | SoundFormat::Mp3_8k => Some(CodecId::Mp3),
            SoundFormat::G711A => Some(CodecId::G711A),
            SoundFormat::G711U => Some(CodecId::G711U),
            _ => None,
        }
    }
}

/// Parsed FLV audio tag header (first 1 or 2 bytes).
#[derive(Debug, Clone, Copy, PartialEq, Eq)]
pub struct AudioTagHeader {
    pub sound_format: SoundFormat,
    pub sound_rate: u8,
    pub sound_size: u8,
    pub sound_type: u8,
    /// For AAC: 0 = sequence header, 1 = raw AAC frame.
    pub aac_packet_type: Option<u8>,
    /// Byte length of the header in the tag body.
    pub header_size: usize,
}

/// What parsing an audio tag header at the start of `d` gives.
pub open spec fn audio_header_spec(d: Seq<u8>) -> Result<AudioTagHeader, FlvError> {
    if d.len() == 0 {
        Err(FlvError::MalformedTag)
    } else {
        let b0 = d[0];
        let format = sound_format_spec(b0 / 16);
        if format == SoundFormat::Aac && d.len() < 2 {
            Err(FlvError::MalformedTag)
        } else {
            Ok(
                AudioTagHeader {
                    sound_format: format,
                    sound_rate: (b0 / 4) % 4,
                    sound_size: (b0 / 2) % 2,
                    sound_type: b0 % 2,
                    aac_packet_type: if format == SoundFormat::Aac {
                        Some(d[1])
                    } else {
                        None
                    },
                    header_size: if format == SoundFormat::Aac {
                        2
                    } else {
                        1
                    },
                },
            )
        }
    }
}

/// The sound-format nibble written for a codec.
pub open spec fn format_nibble(codec: CodecId) -> u8 {
    match codec {
        CodecId::Aac => 10,
        CodecId::Mp3 => 2,
        CodecId::G711A => 7,
        CodecId::G711U => 8,
        _ => 15,
    }
}

/// The sound-rate bits written for a sample rate.
pub open spec fn rate_bits(sample_rate: u32) -> u8 {
    if sample_rate <= 8000 {
        0
    } else if sample_rate <= 16_000 {
        1
    } else if sample_rate <= 32_000 {
        2
    } else {
        3
    }
}

/// The one-byte audio tag header written for a codec, rate and channel count.
pub open spec fn header_byte_spec(codec: CodecId, sample_rate: u32, channels: u8) -> u8 {
    let size: u8 = if codec == CodecId::G711A || codec == CodecId::G711U {
        0
    } else {
        1
    };
    let stereo: u8 = if channels > 1 {
        1
    } else {
        0
    };
    (format_nibble(codec) * 16 + rate_bits(sample_rate) * 4 + size * 2 + stereo) as u8
}

impl AudioTagHeader {
    /// Parse an audio tag header from the start of `data`.
    pub fn parse(data: &[u8]) -> (r: Result<Self, FlvError>)
        ensures
            r == audio_header_spec(data@),
    {
        if data.len() == 0 {
            return Err(FlvError::MalformedTag);
        }
        let b0 = data[0];
        let sound_format = SoundFormat::from_u8(b0 / 16);
        let sound_rate = (b0 / 4) % 4;
        let sound_size = (b0 / 2) % 2;
        let sound_type = b0 % 2;
        if let SoundFormat::Aac = sound_format {
            if data.len() < 2 {
                return Err(FlvError::MalformedTag);
            }
            Ok(
                AudioTagHeader {
                    sound_format,
                    sound_rate,
                    sound_size,
                    sound_type,
                    aac_packet_type: Some(data[1]),
                    header_size: 2,
                },
            )
        } else {
            Ok(
                AudioTagHeader {
                    sound_format,
                    sound_rate,
                    sound_size,
                    sound_type,
                    aac_packet_type: None,
                    header_size: 1,
                },
            )
        }
    }

    /// Build a minimal 1-byte audio tag header for the given codec.
    pub fn build_header_byte(codec: CodecId, sample_rate: u32, channels: u8) -> (b: u8)
        ensures
            b == header_byte_spec(codec, sample_rate, channels),
    {
        let format_nibble: u8 = match codec {
            CodecId::Aac => 10,
            CodecId::Mp3 => 2,
            CodecId::G711A => 7,
            CodecId::G711U => 8,
            _ => 15,
        };
        let rate_bits: u8 = if sample_rate <= 8000 {
            0
        } else if sample_rate <= 16_000 {
            1
        } else if sample_rate <= 32_000 {
            2
        } else {
            3
        };
        let sound_size: u8 = match codec {
            CodecId::G711A | CodecId::G711U => 0,
            _ => 1,
        };
        let type_bit: u8 = if channels > 1 {
            1
        } else {
            0
        };
        format_nibble * 16 + rate_bits * 4 + sound_size * 2 + type_bit
    }

    /// True if this is an AAC config packet.
    pub fn is_aac_config(self) -> (b: bool)
        ensures
            b == (self.sound_format == SoundFormat::Aac && self.aac_packet_type == Some(0u8)),
    {
        match (self.sound_format, self.aac_packet_type) {
            (SoundFormat::Aac, Some(t)) => t == 0,
            _ => false,
        }
    }

    /// True if this is an AAC raw frame.
    pub fn is_aac_raw(self) -> (b: bool)
        ensures
            b == (self.sound_format == SoundFormat::Aac && self.aac_packet_type == Some(1u8)),
    {
        match (self.sound_format, self.aac_packet_type) {
            (SoundFormat::Aac, Some(t)) => t == 1,
            _ => false,
        }
    }
}

/// Map an FLV `sound_rate` bit field to a sample rate (for non-AAC codecs).
pub fn sound_rate_to_hz(sound_rate: u8, format: SoundFormat) -> (hz: u32)
    ensures
        hz == match format {
            SoundFormat::Mp3 | SoundFormat::Mp3_8k => if sound_rate == 0 {
                5500u32
            } else if sound_rate == 1 {
                11025
            } else if sound_rate == 2 {
                22050
            } else {
                44100
            },
            SoundFormat::G711A | SoundFormat::G711U => 8000,
            _ => 44100,
        },
{
    match format {
        SoundFormat::Mp3 | SoundFormat::Mp3_8k => match sound_rate {
            0 => 5500,
            1 => 11025,
            2 => 22050,
            _ => 44100,
        },
        SoundFormat::G711A | SoundFormat::G711U => 8000,
        _ => 44100,
    }
}

/// Build a generic audio tag body (1-byte header + payload) for MP3/G.711.
pub fn build_audio_raw_frame(codec: CodecId, sample_rate: u32, channels: u8, payload: &[u8]) -> (out:
    Vec<u8>)
    ensures
        out@ == seq![header_byte_spec(codec, sample_rate, channels)] + payload@,
{
    let mut out: Vec<u8> = Vec::new();
    out.push(AudioTagHeader::build_header_byte(codec, sample_rate, channels));
    append(&mut out, payload);
    out
}

/// An audio tag header written for AAC, MP3 or G.711 reads back with the
/// codec's sound format, the rate class, sample size and channel layout it
/// was written with, whatever follows it (for AAC, the packet type byte
/// that must follow it).
pub proof fn lemma_audio_header_round_trip(
    codec: CodecId,
    sample_rate: u32,
    channels: u8,
    payload: Seq<u8>,
)
    requires
        codec == CodecId::Aac || codec == CodecId::Mp3 || codec == CodecId::G711A || codec
            == CodecId::G711U,
        codec == CodecId::Aac ==> payload.len() >= 1,
    ensures
        audio_header_spec(seq![header_byte_spec(codec, sample_rate, channels)] + payload) == Ok::<
            AudioTagHeader,
            FlvError,
        >(
            AudioTagHeader {
                sound_format: sound_format_spec(format_nibble(codec)),
                sound_rate: rate_bits(sample_rate),
                sound_size: if codec == CodecId::G711A || codec == CodecId::G711U {
                    0
                } else {
                    1
                },
                sound_type: if channels > 1 {
                    1
                } else {
                    0
                },
                aac_packet_type: if codec == CodecId::Aac {
                    Some(payload[0])
                } else {
                    None
                },
                header_size: if codec == CodecId::Aac {
                    2
                } else {
                    1
                },
            },
        ),
        sound_format_spec(format_nibble(codec)) == match codec {
            CodecId::Aac => SoundFormat::Aac,
            CodecId::Mp3 => SoundFormat::Mp3,
            CodecId::G711A => SoundFormat::G711A,
            _ => SoundFormat::G711U,
        },
{
    let d = seq![header_byte_spec(codec, sample_rate, channels)] + payload;
    let b = d[0] as int;
    assert(d[0] == header_byte_spec(codec, sample_rate, channels));
    if codec == CodecId::Aac {
        assert(d[1] == payload[0]);
    }
    assert(b / 16 == format_nibble(codec) as int);
    assert((b / 4) % 4 == rate_bits(sample_rate) as int);
}

} // verus!
