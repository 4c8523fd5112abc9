//! MPEG-TS packet header parsing.

use vstd::prelude::*;

use crate::isobmff::boxes::slice_range;
use crate::mpegts::error::TsError;

verus! {

/// Transport stream packet header and adaptation state.
#[derive(Debug, Clone, Copy, PartialEq, Eq)]
pub struct TsPacket {
    pub pid: u16,
    pub payload_unit_start: bool,
    pub adaptation_field_control: u8,
    pub continuity_counter: u8,
    pub transport_error: bool,
    pub discontinuity: bool,
    pub has_pcr: bool,
    pub pcr: Option<u64>,
    pub has_random_access_indicator: bool,
}

/// The 42-bit PCR (33-bit base times 300 plus 9-bit extension) stored in six bytes at `i`.
pub open spec fn pcr_spec(d: Seq<u8>, i: int) -> u64 {
    let base = d[i] as int * 0x2000000 + d[i + 1] as int * 0x20000 + d[i + 2] as int * 0x200
        + d[i + 3] as int * 2 + d[i + 4] as int / 128;
    let ext = (d[i + 4] as int % 2) * 256 + d[i + 5] as int;
    (base * 300 + ext) as u64
}

/// What parsing the header and adaptation field of a 188-byte packet gives.
pub open spec fn ts_packet_spec(d: Seq<u8>) -> Result<TsPacket, TsError> {
    if d.len() < 188 {
        Err(TsError::PacketTooShort)
    } else if d[0] != 0x47 {
        Err(TsError::LostSync)
    } else {
        let afc = (d[3] / 16) % 4;
        let has_af = afc == 2 || afc == 3;
        let adapt_len = d[4];
        let flags = d[5];
        let parse_flags = has_af && adapt_len > 0;
        let pcr_present = parse_flags && (flags / 16) % 2 == 1 && adapt_len >= 7;
        Ok(
            TsPacket {
                pid: ((d[1] % 32) as int * 256 + d[2] as int) as u16,
                payload_unit_start: (d[1] / 64) % 2 == 1,
                adaptation_field_control: afc as u8,
                continuity_counter: d[3] % 16,
                transport_error: d[1] >= 128,
                discontinuity: parse_flags && flags >= 128,
                has_pcr: pcr_present,
                pcr: if pcr_present {
                    Some(pcr_spec(d, 6))
                } else {
                    None
                },
                has_random_access_indicator: parse_flags && (flags / 64) % 2 == 1,
            },
        )
    }
}

impl TsPacket {
    /// Parse the 4-byte TS header and adaptation field from `data`.
    ///
    /// `data` must be at least 188 bytes.
    pub fn parse(data: &[u8]) -> (r: Result<Self, TsError>)
        ensures
            r == ts_packet_spec(data@),
    {
        if data.len() < 188 {
            return Err(TsError::PacketTooShort);
        }
        if data[0] != 0x47 {
            return Err(TsError::LostSync);
        }
        let b0 = data[1];
        let b1 = data[2];
        let b2 = data[3];
        let pid = ((b0 % 32) as u16) * 256 + (b1 as u16);
        let payload_unit_start = (b0 / 64) % 2 == 1;
        let transport_error = b0 >= 128;
        let adaptation_field_control = (b2 / 16) % 4;
        let continuity_counter = b2 % 16;
        let mut has_pcr = false;
        let mut pcr = None;
        let mut has_random_access_indicator = false;
        let mut discontinuity = false;
        if adaptation_field_control == 2 || adaptation_field_control == 3 {
            let adapt_len = data[4];
            if adapt_len > 0 {
                let flags = data[5];
                discontinuity = flags >= 128;
                has_random_access_indicator = (flags / 64) % 2 == 1;
                let pcr_flag = (flags / 16) % 2 == 1;
                if pcr_flag && adapt_len >= 7 {
                    let base: u64 = (data[6] as u64) * 0x2000000 + (data[7] as u64) * 0x20000
                        + (data[8] as u64) * 0x200 + (data[9] as u64) * 2 + (data[10] as u64) / 128;
                    let ext: u64 = ((data[10] % 2) as u64) * 256 + (data[11] as u64);
                    pcr = Some(base * 300 + ext);
                    has_pcr = true;
                }
            }
        }
        Ok(TsPacket {
            pid,
            payload_unit_start,
            adaptation_field_control,
            continuity_counter,
            transport_error,
            discontinuity,
            has_pcr,
            pcr,
            has_random_access_indicator,
        })
    }

    /// Return the slice of payload bytes within `data` (after adaptation field).
    pub fn payload<'a>(&self, data: &'a [u8]) -> (r: &'a [u8])
        ensures
            r@ == payload_spec(*self, data@),
    {
        if self.adaptation_field_control == 2 {
            return &[];
        }
        let adapt_len: usize = if self.adaptation_field_control == 3 {
            let len: usize = if data.len() > 4 {
                data[4] as usize
            } else {
                0
            };
            1 + len
        } else {
            0
        };
        let start = 4 + adapt_len;
        if start > data.len() {
            return &[];
        }
        slice_range(data, start, data.len())
    }
}

/// The payload bytes of `data` for a packet with header `p`.
pub open spec fn payload_spec(p: TsPacket, d: Seq<u8>) -> Seq<u8> {
    if p.adaptation_field_control == 2 {
        Seq::empty()
    } else {
        let adapt: int = if p.adaptation_field_control == 3 {
            1 + (if d.len() > 4 {
                d[4] as int
            } else {
                0
            })
        } else {
            0
        };
        if 4 + adapt > d.len() {
            Seq::empty()
        } else {
            d.subrange(4 + adapt, d.len() as int)
        }
    }
}

} // verus!
