//! PSI section assembly, PAT/PMT parsing and the MPEG-2 CRC.

use vstd::prelude::*;

use crate::bytes::be16;
use crate::isobmff::boxes::{append, copy_range, slice_range};
use crate::mpegts::error::TsError;

verus! {

/// Maximum allowed single section payload length in bytes.
pub const MAX_SECTION_SIZE: usize = 4096;

/// Assemble MPEG-TS PSI sections from packet payloads.
#[derive(Debug)]
pub struct SectionAssembler {
    buffer: Vec<u8>,
    section_length: Option<usize>,
}

/// Abstract state of a `SectionAssembler`.
pub struct SecState {
    pub buf: Seq<u8>,
    pub len: Option<usize>,
}

/// Total length of the section whose header starts `buf`: the 12-bit
/// `section_length` plus the 3 header bytes before it.
pub open spec fn section_total(buf: Seq<u8>) -> int {
    (buf[1] % 16) as int * 256 + buf[2] as int + 3
}

/// Takes every complete section off the front of the buffer.
pub open spec fn sec_extract(s: SecState) -> (SecState, Seq<Seq<u8>>)
    decreases s.buf.len(),
{
    let l: Option<usize> = if s.len is None && s.buf.len() >= 3 {
        Some(section_total(s.buf) as usize)
    } else {
        s.len
    };
    match l {
        Some(n) => if s.buf.len() >= n && n >= 1 {
            let (s2, outs) = sec_extract(
                SecState { buf: s.buf.subrange(n as int, s.buf.len() as int), len: None },
            );
            (s2, seq![s.buf.subrange(0, n as int)] + outs)
        } else {
            (SecState { buf: s.buf, len: l }, Seq::empty())
        },
        None => (SecState { buf: s.buf, len: l }, Seq::empty()),
    }
}

/// Appends section bytes and takes off the sections they complete.
pub open spec fn sec_append(s: SecState, data: Seq<u8>) -> Result<
    (SecState, Seq<Seq<u8>>),
    TsError,
> {
    if data.len() == 0 {
        Ok((s, Seq::empty()))
    } else if s.buf.len() + data.len() > MAX_SECTION_SIZE {
        Err(TsError::LimitExceeded { limit: "section assembler" })
    } else {
        Ok(sec_extract(SecState { buf: s.buf + data, len: s.len }))
    }
}

/// A section is in progress.
pub open spec fn sec_active(s: SecState) -> bool {
    s.buf.len() > 0 || s.len is Some
}

/// The empty assembler state.
pub open spec fn sec_idle() -> SecState {
    SecState { buf: Seq::empty(), len: None }
}

/// What feeding one TS payload gives: the next state and the sections completed.
///
/// With the payload-unit-start flag the first byte is the pointer field: the
/// bytes before the pointed-to position finish the section in progress, and a
/// new section starts after them.
pub open spec fn sec_feed(s: SecState, payload: Seq<u8>, pusi: bool) -> Result<
    (SecState, Seq<Seq<u8>>),
    TsError,
> {
    if pusi {
        if payload.len() == 0 {
            Ok((s, Seq::empty()))
        } else {
            let p = payload[0] as int;
            if p + 1 > payload.len() {
                Err(
                    TsError::InvalidInput { code: 2001, context: Some("PUSI pointer beyond payload") },
                )
            } else {
                let tail: Result<(SecState, Seq<Seq<u8>>), TsError> = if sec_active(s) && p > 0 {
                    sec_append(s, payload.subrange(1, 1 + p))
                } else {
                    Ok((s, Seq::empty()))
                };
                match tail {
                    Err(e) => Err(e),
                    Ok((_, first)) => match sec_append(
                        sec_idle(),
                        payload.subrange(1 + p, payload.len() as int),
                    ) {
                        Err(e) => Err(e),
                        Ok((s2, outs)) => Ok((s2, first + outs)),
                    },
                }
            }
        }
    } else if !sec_active(s) {
        Ok((s, Seq::empty()))
    } else {
        sec_append(s, payload)
    }
}

/// The views of completed sections.
pub open spec fn sections_view(v: Seq<Vec<u8>>) -> Seq<Seq<u8>> {
    v.map_values(|x: Vec<u8>| x@)
}

impl SectionAssembler {
    /// The assembler's abstract state.
    pub closed spec fn state(self) -> SecState {
        SecState { buf: self.buffer@, len: self.section_length }
    }

    /// An assembler with no section in progress.
    pub fn new() -> (a: Self)
        ensures
            a.state() == sec_idle(),
    {
        SectionAssembler { buffer: Vec::new(), section_length: None }
    }

    fn extract(&mut self, out: &mut Vec<Vec<u8>>)
        ensures
            ({
                let (s2, secs) = sec_extract(old(self).state());
                &&& final(self).state() == s2
                &&& sections_view(final(out)@) == sections_view(old(out)@) + secs
            }),
        decreases old(self).state().buf.len(),
    {
        let ghost before = sections_view(out@);
        if self.section_length.is_none() && self.buffer.len() >= 3 {
            let len = ((self.buffer[1] % 16) as usize) * 256 + (self.buffer[2] as usize) + 3;
            self.section_length = Some(len);
        }
        if let Some(len) = self.section_length {
            if self.buffer.len() >= len && len >= 1 {
                let n = self.buffer.len();
                let section = copy_range(self.buffer.as_slice(), 0, len);
                let rest = copy_range(self.buffer.as_slice(), len, n);
                out.push(section);
                self.buffer = rest;
                self.section_length = None;
                let ghost mid = sections_view(out@);
                assert(mid =~= before + seq![section@]);
                self.extract(out);
                assert(sections_view(out@) =~= before + (seq![section@] + sec_extract(
                    SecState { buf: rest@, len: None },
                ).1));
                return;
            }
        }
        assert(sections_view(out@) =~= before + Seq::<Seq<u8>>::empty());
    }

    fn append(&mut self, data: &[u8], out: &mut Vec<Vec<u8>>) -> (r: Result<(), TsError>)
        ensures
            match sec_append(old(self).state(), data@) {
                Ok((s2, secs)) => r is Ok && final(self).state() == s2 && sections_view(final(out)@)
                    == sections_view(old(out)@) + secs,
                Err(e) => r == Err::<(), TsError>(e),
            },
    {
        if data.len() == 0 {
            assert(sections_view(out@) + Seq::<Seq<u8>>::empty() =~= sections_view(out@));
            return Ok(());
        }
        if data.len() > MAX_SECTION_SIZE || self.buffer.len() > MAX_SECTION_SIZE - data.len() {
            return Err(TsError::LimitExceeded { limit: "section assembler" });
        }
        append(&mut self.buffer, data);
        self.extract(out);
        Ok(())
    }

    /// Feed a payload belonging to this PID.
    ///
    /// Returns the sections completed by this payload, in stream order.
    pub fn feed(&mut self, payload: &[u8], payload_unit_start: bool) -> (r: Result<
        Vec<Vec<u8>>,
        TsError,
    >)
        ensures
            match sec_feed(old(self).state(), payload@, payload_unit_start) {
                Ok((s2, secs)) => r matches Ok(v) && final(self).state() == s2 && sections_view(v@)
                    == secs,
                Err(e) => r == Err::<Vec<Vec<u8>>, TsError>(e),
            },
    {
        let mut out: Vec<Vec<u8>> = Vec::new();
        assert(sections_view(out@) =~= Seq::<Seq<u8>>::empty());
        if payload_unit_start {
            if payload.len() == 0 {
                return Ok(out);
            }
            let pointer = payload[0] as usize;
            if pointer + 1 > payload.len() {
                return Err(TsError::invalid_input(2001, Some("PUSI pointer beyond payload")));
            }
            let active = self.buffer.len() > 0 || self.section_length.is_some();
            if active && pointer > 0 {
                self.append(slice_range(payload, 1, 1 + pointer), &mut out)?;
            }
            let ghost first = sections_view(out@);
            self.buffer = Vec::new();
            self.section_length = None;
            self.append(slice_range(payload, 1 + pointer, payload.len()), &mut out)?;
            return Ok(out);
        }
        if self.buffer.len() == 0 && self.section_length.is_none() {
            return Ok(out);
        }
        self.append(payload, &mut out)?;
        assert(Seq::<Seq<u8>>::empty() + sections_view(out@) =~= sections_view(out@));
        Ok(out)
    }
}

/// A parsed PAT entry mapping program number to PMT PID.
#[derive(Debug, Clone, Copy, PartialEq, Eq)]
pub struct PatEntry {
    pub program_number: u16,
    pub pmt_pid: u16,
}

/// The program entries in `d[i..end]`, four bytes each, without the network PID (program 0).
pub open spec fn pat_entries(d: Seq<u8>, i: int, end: int) -> Seq<PatEntry>
    decreases end - i,
{
    if i + 4 > end {
        Seq::empty()
    } else {
        let program = be16(d, i);
        let rest = pat_entries(d, i + 4, end);
        if program == 0 {
            rest
        } else {
            seq![
                PatEntry {
                    program_number: program as u16,
                    pmt_pid: (be16(d, i + 2) % 0x2000) as u16,
                },
            ] + rest
        }
    }
}

/// What parsing a PAT section gives.
pub open spec fn pat_spec(section: Seq<u8>) -> Result<Seq<PatEntry>, TsError> {
    if section.len() < 8 {
        Err(TsError::NeedMoreData)
    } else if section[0] != 0 {
        Err(TsError::InvalidInput { code: 2002, context: Some("PAT table id mismatch") })
    } else {
        let total = section_total(section);
        if section.len() < total {
            Err(TsError::NeedMoreData)
        } else if total < 12 {
            Err(TsError::InvalidInput { code: 2003, context: Some("PAT section too short") })
        } else if (total - 12) % 4 != 0 {
            Err(TsError::InvalidInput { code: 2004, context: Some("PAT entry length misaligned") })
        } else {
            Ok(pat_entries(section, 8, total - 4))
        }
    }
}

/// Parse a PAT section.
pub fn parse_pat(section: &[u8]) -> (r: Result<Vec<PatEntry>, TsError>)
    ensures
        match r {
            Ok(v) => pat_spec(section@) == Ok::<Seq<PatEntry>, TsError>(v@),
            Err(e) => pat_spec(section@) == Err::<Seq<PatEntry>, TsError>(e),
        },
{
    if section.len() < 8 {
        return Err(TsError::NeedMoreData);
    }
    if section[0] != 0x00 {
        return Err(TsError::invalid_input(2002, Some("PAT table id mismatch")));
    }
    let total = ((section[1] % 16) as usize) * 256 + (section[2] as usize) + 3;
    if section.len() < total {
        return Err(TsError::NeedMoreData);
    }
    if total < 12 {
        return Err(TsError::invalid_input(2003, Some("PAT section too short")));
    }
    if (total - 12) % 4 != 0 {
        return Err(TsError::invalid_input(2004, Some("PAT entry length misaligned")));
    }
    let end = total - 4;
    let mut entries: Vec<PatEntry> = Vec::new();
    let mut i: usize = 8;
    while i < end
        invariant
            8 <= i <= end,
            end + 4 == total <= section@.len(),
            (end - i) % 4 == 0,
            entries@ + pat_entries(section@, i as int, end as int) == pat_entries(
                section@,
                8,
                end as int,
            ),
        decreases end - i,
    {
        let program = (section[i] as u16) * 256 + (section[i + 1] as u16);
        let pid_word = (section[i + 2] as u16) * 256 + (section[i + 3] as u16);
        let pmt_pid = pid_word % 0x2000;
        let ghost before = entries@;
        if program != 0 {
            entries.push(PatEntry { program_number: program, pmt_pid });
            assert(before + pat_entries(section@, i as int, end as int) =~= entries@ + pat_entries(
                section@,
                i + 4,
                end as int,
            ));
        }
        i = i + 4;
    }
    assert(entries@ + pat_entries(section@, i as int, end as int) =~= entries@);
    Ok(entries)
}

/// Stream type and elementary PID from a PMT.
#[derive(Debug, Clone, Copy, PartialEq, Eq)]
pub struct PmtStream {
    pub stream_type: u8,
    pub elementary_pid: u16,
}

/// The elementary stream entries in `d[i..end]`, each five bytes plus its descriptors.
#[verifier::opaque]
pub open spec fn pmt_streams(d: Seq<u8>, i: int, end: int) -> Result<Seq<PmtStream>, TsError>
    decreases end - i,
{
    if end - i < 5 {
        Ok(Seq::empty())
    } else {
        let es = be16(d, i + 3) % 0x1000;
        if es > end - (i + 5) {
            Err(TsError::InvalidInput { code: 2009, context: Some("PMT ES info overflow") })
        } else {
            match pmt_streams(d, i + 5 + es, end) {
                Err(e) => Err(e),
                Ok(rest) => Ok(
                    seq![
                        PmtStream {
                            stream_type: d[i],
                            elementary_pid: (be16(d, i + 1) % 0x2000) as u16,
                        },
                    ] + rest,
                ),
            }
        }
    }
}

/// What parsing a PMT section gives: the PCR PID and the stream list.
pub open spec fn pmt_spec(section: Seq<u8>) -> Result<(u16, Seq<PmtStream>), TsError> {
    if section.len() < 12 {
        Err(TsError::NeedMoreData)
    } else if section[0] != 2 {
        Err(TsError::InvalidInput { code: 2006, context: Some("PMT table id mismatch") })
    } else {
        let total = section_total(section);
        if section.len() < total {
            Err(TsError::NeedMoreData)
        } else if total < 16 {
            Err(TsError::InvalidInput { code: 2007, context: Some("PMT section too short") })
        } else {
            let pcr_pid = (be16(section, 8) % 0x2000) as u16;
            let start = 12 + be16(section, 10) % 0x1000;
            if start > total - 4 {
                Err(
                    TsError::InvalidInput {
                        code: 2008,
                        context: Some("PMT program info length overflow"),
                    },
                )
            } else {
                match pmt_streams(section, start, total - 4) {
                    Err(e) => Err(e),
                    Ok(s) => Ok((pcr_pid, s)),
                }
            }
        }
    }
}

/// `r` with `p` put in front of its streams.
pub open spec fn prepend_streams(p: Seq<PmtStream>, r: Result<Seq<PmtStream>, TsError>) -> Result<
    Seq<PmtStream>,
    TsError,
> {
    match r {
        Ok(x) => Ok(p + x),
        Err(e) => Err(e),
    }
}

proof fn lemma_prepend_assoc(a: Seq<PmtStream>, b: Seq<PmtStream>, r: Result<Seq<PmtStream>, TsError>)
    ensures
        prepend_streams(a, prepend_streams(b, r)) == prepend_streams(a + b, r),
{
    match r {
        Ok(x) => {
            assert(a + (b + x) =~= (a + b) + x);
        },
        Err(e) => {},
    }
}

proof fn lemma_prepend_err(a: Seq<PmtStream>, r: Result<Seq<PmtStream>, TsError>)
    requires
        r is Err,
    ensures
        prepend_streams(a, r) == r,
{
}

proof fn lemma_pmt_spec_streams(d: Seq<u8>, pcr_pid: u16, start: int)
    requires
        d.len() >= 12,
        d[0] == 2,
        section_total(d) <= d.len(),
        section_total(d) >= 16,
        pcr_pid == (be16(d, 8) % 0x2000) as u16,
        start == 12 + be16(d, 10) % 0x1000,
        start <= section_total(d) - 4,
    ensures
        pmt_spec(d) == match pmt_streams(d, start, section_total(d) - 4) {
            Err(e) => Err(e),
            Ok(v) => Ok::<(u16, Seq<PmtStream>), TsError>((pcr_pid, v)),
        },
{
}

proof fn lemma_pmt_streams_step(d: Seq<u8>, i: int, end: int)
    ensures
        end - i < 5 ==> pmt_streams(d, i, end) == Ok::<Seq<PmtStream>, TsError>(Seq::empty()),
        end - i >= 5 && be16(d, i + 3) % 0x1000 > end - (i + 5) ==> pmt_streams(d, i, end)
            == Err::<Seq<PmtStream>, TsError>(
            TsError::InvalidInput { code: 2009, context: Some("PMT ES info overflow") },
        ),
        end - i >= 5 && be16(d, i + 3) % 0x1000 <= end - (i + 5) ==> pmt_streams(d, i, end)
            == prepend_streams(
            seq![PmtStream { stream_type: d[i], elementary_pid: (be16(d, i + 1) % 0x2000) as u16 }],
            pmt_streams(d, i + 5 + be16(d, i + 3) % 0x1000, end),
        ),
{
    reveal(pmt_streams);
}

/// Parse a PMT section, returning the PCR PID and stream list.
#[verifier::spinoff_prover]
pub fn parse_pmt(section: &[u8]) -> (r: Result<(u16, Vec<PmtStream>), TsError>)
    ensures
        match r {
            Ok((pid, v)) => pmt_spec(section@) == Ok::<(u16, Seq<PmtStream>), TsError>((pid, v@)),
            Err(e) => pmt_spec(section@) == Err::<(u16, Seq<PmtStream>), TsError>(e),
        },
{
    if section.len() < 12 {
        return Err(TsError::NeedMoreData);
    }
    if section[0] != 0x02 {
        return Err(TsError::invalid_input(2006, Some("PMT table id mismatch")));
    }
    let total = ((section[1] % 16) as usize) * 256 + (section[2] as usize) + 3;
    if section.len() < total {
        return Err(TsError::NeedMoreData);
    }
    if total < 16 {
        return Err(TsError::invalid_input(2007, Some("PMT section too short")));
    }
    let pcr_pid = ((section[8] % 32) as u16) * 256 + (section[9] as u16);
    let program_info_length = ((section[10] % 16) as usize) * 256 + (section[11] as usize);
    let stream_start = 12 + program_info_length;
    let end = total - 4;
    if stream_start > end {
        return Err(TsError::invalid_input(2008, Some("PMT program info length overflow")));
    }
    assert(pcr_pid == (be16(section@, 8) % 0x2000) as u16);
    assert(total == section_total(section@));
    assert(stream_start == 12 + be16(section@, 10) % 0x1000);
    proof {
        lemma_pmt_spec_streams(section@, pcr_pid, stream_start as int);
    }
    let mut streams: Vec<PmtStream> = Vec::new();
    let mut i: usize = stream_start;
    while end - i >= 5
        invariant
            stream_start <= i <= end,
            end + 4 == total <= section@.len(),
            pmt_streams(section@, stream_start as int, end as int) == prepend_streams(
                streams@,
                pmt_streams(section@, i as int, end as int),
            ),
            pmt_spec(section@) == match pmt_streams(section@, stream_start as int, end as int) {
                Err(e) => Err(e),
                Ok(v) => Ok::<(u16, Seq<PmtStream>), TsError>((pcr_pid, v)),
            },
        decreases end - i,
    {
        let stream_type = section[i];
        let pid_word = (section[i + 1] as u16) * 256 + (section[i + 2] as u16);
        let len_word = (section[i + 3] as u16) * 256 + (section[i + 4] as u16);
        let elementary_pid = pid_word % 0x2000;
        let es_info_length = (len_word % 0x1000) as usize;
        assert(es_info_length == be16(section@, i + 3) % 0x1000);
        assert(elementary_pid == (be16(section@, i + 1) % 0x2000) as u16);
        proof {
            lemma_pmt_streams_step(section@, i as int, end as int);
        }
        if es_info_length > end - (i + 5) {
            proof {
                lemma_prepend_err(streams@, pmt_streams(section@, i as int, end as int));
            }
            return Err(TsError::invalid_input(2009, Some("PMT ES info overflow")));
        }
        let ghost before = streams@;
        let ghost next = (i + 5 + es_info_length) as int;
        streams.push(PmtStream { stream_type, elementary_pid });
        proof {
            lemma_prepend_assoc(
                before,
                seq![PmtStream { stream_type, elementary_pid }],
                pmt_streams(section@, next, end as int),
            );
            assert(before + seq![PmtStream { stream_type, elementary_pid }] =~= streams@);
        }
        i = i + 5 + es_info_length;
    }
    proof {
        lemma_pmt_streams_step(section@, i as int, end as int);
    }
    assert(streams@ + Seq::<PmtStream>::empty() =~= streams@);
    Ok((pcr_pid, streams))
}

/// One CRC register update for one bit.
pub open spec fn crc_bit(crc: u32) -> u32 {
    if crc & 0x80000000 != 0 {
        (crc << 1) ^ 0x04C11DB7
    } else {
        crc << 1
    }
}

/// The CRC register after eight bit steps.
pub open spec fn crc_bits(crc: u32, k: nat) -> u32
    decreases k,
{
    if k == 0 {
        crc
    } else {
        crc_bits(crc_bit(crc), (k - 1) as nat)
    }
}

/// MPEG-2 CRC-32 (polynomial 0x04C11DB7, initial value 0xFFFFFFFF, no reflection,
/// no final xor) of `data`.
pub open spec fn crc32_spec(data: Seq<u8>) -> u32
    decreases data.len(),
{
    if data.len() == 0 {
        0xFFFFFFFF
    } else {
        let c = crc32_spec(data.drop_last());
        crc_bits(c ^ ((data.last() as u32) << 24), 8)
    }
}

/// CRC32 used for PSI sections (MPEG-2 model).
pub fn crc32_mpeg(data: &[u8]) -> (crc: u32)
    ensures
        crc == crc32_spec(data@),
{
    let mut crc: u32 = 0xFFFFFFFF;
    let mut i: usize = 0;
    while i < data.len()
        invariant
            i <= data@.len(),
            crc == crc32_spec(data@.subrange(0, i as int)),
        decreases data@.len() - i,
    {
        let b = data[i];
        assert(data@.subrange(0, i + 1).drop_last() =~= data@.subrange(0, i as int));
        crc = crc ^ ((b as u32) << 24);
        let ghost start = crc;
        let mut k: u32 = 0;
        while k < 8
            invariant
                k <= 8,
                crc_bits(start, 8) == crc_bits(crc, (8 - k) as nat),
            decreases 8 - k,
        {
            if (crc & 0x80000000) != 0 {
                crc = (crc << 1) ^ 0x04C11DB7;
            } else {
                crc = crc << 1;
            }
            k = k + 1;
        }
        i = i + 1;
    }
    assert(data@.subrange(0, data@.len() as int) =~= data@);
    crc
}

} // verus!
