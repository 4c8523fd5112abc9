//! Parameter set caches for H.264 and H.265 Annex-B streams.

use vstd::prelude::*;

use crate::isobmff::boxes::copy_range;
use crate::media::CodecId;

verus! {

/// The bytes an optional NAL holds.
pub open spec fn opt_nal(o: Option<Vec<u8>>) -> Option<Seq<u8>> {
    match o {
        Some(v) => Some(v@),
        None => None,
    }
}

/// Caches the latest H.264 SPS/PPS NAL units.
#[derive(Debug, Clone)]
pub struct H264ParameterSetCache {
    sps: Option<Vec<u8>>,
    pps: Option<Vec<u8>>,
}

impl H264ParameterSetCache {
    /// The cached SPS NAL.
    pub closed spec fn sps(self) -> Option<Seq<u8>> {
        opt_nal(self.sps)
    }

    /// The cached PPS NAL.
    pub closed spec fn pps(self) -> Option<Seq<u8>> {
        opt_nal(self.pps)
    }

    /// Create an empty cache.
    pub fn new() -> (c: Self)
        ensures
            c.sps() is None,
            c.pps() is None,
    {
        H264ParameterSetCache { sps: None, pps: None }
    }

    /// True when both SPS and PPS have been observed.
    pub fn is_complete(&self) -> (b: bool)
        ensures
            b == (self.sps() is Some && self.pps() is Some),
    {
        self.sps.is_some() && self.pps.is_some()
    }

    /// Reset the cache.
    pub fn reset(&mut self)
        ensures
            final(self).sps() is None,
            final(self).pps() is None,
    {
        self.sps = None;
        self.pps = None;
    }

    /// If `nal` is an SPS (type 7) or PPS (type 8), store it and return true.
    pub fn consume(&mut self, nal: &[u8]) -> (b: bool)
        ensures
            b == (nal@.len() >= 1 && (nal@[0] % 32 == 7 || nal@[0] % 32 == 8)),
            final(self).sps() == if b && nal@[0] % 32 == 7 {
                Some(nal@)
            } else {
                old(self).sps()
            },
            final(self).pps() == if b && nal@[0] % 32 == 8 {
                Some(nal@)
            } else {
                old(self).pps()
            },
    {
        if nal.len() == 0 {
            return false;
        }
        let nal_type = nal[0] % 32;
        if nal_type == 7 {
            self.sps = Some(copy_range(nal, 0, nal.len()));
            assert(nal@.subrange(0, nal@.len() as int) =~= nal@);
            true
        } else if nal_type == 8 {
            self.pps = Some(copy_range(nal, 0, nal.len()));
            assert(nal@.subrange(0, nal@.len() as int) =~= nal@);
            true
        } else {
            false
        }
    }
}

/// Caches the latest H.265 VPS/SPS/PPS NAL units.
#[derive(Debug, Clone)]
pub struct H265ParameterSetCache {
    vps: Option<Vec<u8>>,
    sps: Option<Vec<u8>>,
    pps: Option<Vec<u8>>,
}

/// The H.265 NAL unit type in the first header byte.
pub open spec fn hevc_type(b: u8) -> int {
    (b as int / 2) % 64
}

impl H265ParameterSetCache {
    /// The cached VPS NAL.
    pub closed spec fn vps(self) -> Option<Seq<u8>> {
        opt_nal(self.vps)
    }

    /// The cached SPS NAL.
    pub closed spec fn sps(self) -> Option<Seq<u8>> {
        opt_nal(self.sps)
    }

    /// The cached PPS NAL.
    pub closed spec fn pps(self) -> Option<Seq<u8>> {
        opt_nal(self.pps)
    }

    /// Create an empty cache.
    pub fn new() -> (c: Self)
        ensures
            c.vps() is None,
            c.sps() is None,
            c.pps() is None,
    {
        H265ParameterSetCache { vps: None, sps: None, pps: None }
    }

    /// True when SPS and PPS have been observed. VPS is optional but preferred
    /// for profile/tier/level information.
    pub fn is_complete(&self) -> (b: bool)
        ensures
            b == (self.sps() is Some && self.pps() is Some),
    {
        self.sps.is_some() && self.pps.is_some()
    }

    /// Reset the cache.
    pub fn reset(&mut self)
        ensures
            final(self).vps() is None,
            final(self).sps() is None,
            final(self).pps() is None,
    {
        self.vps = None;
        self.sps = None;
        self.pps = None;
    }

    /// If `nal` is a VPS (type 32), SPS (33) or PPS (34), store it and return true.
    pub fn consume(&mut self, nal: &[u8]) -> (b: bool)
        ensures
            b == (nal@.len() >= 2 && 32 <= hevc_type(nal@[0]) <= 34),
            final(self).vps() == if b && hevc_type(nal@[0]) == 32 {
                Some(nal@)
            } else {
                old(self).vps()
            },
            final(self).sps() == if b && hevc_type(nal@[0]) == 33 {
                Some(nal@)
            } else {
                old(self).sps()
            },
            final(self).pps() == if b && hevc_type(nal@[0]) == 34 {
                Some(nal@)
            } else {
                old(self).pps()
            },
    {
        if nal.len() < 2 {
            return false;
        }
        let nal_type = (nal[0] / 2) % 64;
        proof {
            assert(nal@.subrange(0, nal@.len() as int) =~= nal@);
        }
        if nal_type == 32 {
            self.vps = Some(copy_range(nal, 0, nal.len()));
            true
        } else if nal_type == 33 {
            self.sps = Some(copy_range(nal, 0, nal.len()));
            true
        } else if nal_type == 34 {
            self.pps = Some(copy_range(nal, 0, nal.len()));
            true
        } else {
            false
        }
    }
}

/// An H.264 NAL is an SPS (type 7).
pub open spec fn is_h264_sps(nal: Seq<u8>) -> bool {
    nal.len() >= 1 && nal[0] % 32 == 7
}

/// An H.264 NAL is a PPS (type 8).
pub open spec fn is_h264_pps(nal: Seq<u8>) -> bool {
    nal.len() >= 1 && nal[0] % 32 == 8
}

/// The SPS and PPS an H.264 cache holds after consuming `nals`, in order,
/// from empty (a new or reset cache).
pub open spec fn h264_after(nals: Seq<Seq<u8>>) -> (Option<Seq<u8>>, Option<Seq<u8>>)
    decreases nals.len(),
{
    if nals.len() == 0 {
        (None, None)
    } else {
        let (sps, pps) = h264_after(nals.drop_last());
        let n = nals.last();
        (
            if is_h264_sps(n) {
                Some(n)
            } else {
                sps
            },
            if is_h264_pps(n) {
                Some(n)
            } else {
                pps
            },
        )
    }
}

/// An H.264 cache is complete after a run of NALs exactly when the run held
/// an SPS and a PPS.
pub proof fn lemma_h264_complete_after(nals: Seq<Seq<u8>>)
    ensures
        (h264_after(nals).0 is Some && h264_after(nals).1 is Some) <==> ((exists|i: int|
            0 <= i < nals.len() && is_h264_sps(#[trigger] nals[i])) && (exists|j: int|
            0 <= j < nals.len() && is_h264_pps(#[trigger] nals[j]))),
    decreases nals.len(),
{
    lemma_h264_each_after(nals);
}

proof fn lemma_h264_each_after(nals: Seq<Seq<u8>>)
    ensures
        h264_after(nals).0 is Some <==> exists|i: int| 0 <= i < nals.len() && is_h264_sps(#[trigger] nals[i]),
        h264_after(nals).1 is Some <==> exists|j: int| 0 <= j < nals.len() && is_h264_pps(#[trigger] nals[j]),
    decreases nals.len(),
{
    if nals.len() > 0 {
        let r = nals.drop_last();
        lemma_h264_each_after(r);
        if exists|i: int| 0 <= i < r.len() && is_h264_sps(#[trigger] r[i]) {
            let i = choose|i: int| 0 <= i < r.len() && is_h264_sps(#[trigger] r[i]);
            assert(nals[i] == r[i]);
        }
        if exists|i: int| 0 <= i < r.len() && is_h264_pps(#[trigger] r[i]) {
            let i = choose|i: int| 0 <= i < r.len() && is_h264_pps(#[trigger] r[i]);
            assert(nals[i] == r[i]);
        }
        if exists|i: int| 0 <= i < nals.len() && is_h264_sps(#[trigger] nals[i]) {
            let i = choose|i: int| 0 <= i < nals.len() && is_h264_sps(#[trigger] nals[i]);
            if i < nals.len() - 1 {
                assert(r[i] == nals[i]);
            }
        }
        if exists|i: int| 0 <= i < nals.len() && is_h264_pps(#[trigger] nals[i]) {
            let i = choose|i: int| 0 <= i < nals.len() && is_h264_pps(#[trigger] nals[i]);
            if i < nals.len() - 1 {
                assert(r[i] == nals[i]);
            }
        }
    }
}

/// An H.265 NAL is an SPS (type 33).
pub open spec fn is_h265_sps(nal: Seq<u8>) -> bool {
    nal.len() >= 2 && hevc_type(nal[0]) == 33
}

/// An H.265 NAL is a PPS (type 34).
pub open spec fn is_h265_pps(nal: Seq<u8>) -> bool {
    nal.len() >= 2 && hevc_type(nal[0]) == 34
}

/// The SPS and PPS an H.265 cache holds after consuming `nals`, in order,
/// from empty (a new or reset cache).
pub open spec fn h265_after(nals: Seq<Seq<u8>>) -> (Option<Seq<u8>>, Option<Seq<u8>>)
    decreases nals.len(),
{
    if nals.len() == 0 {
        (None, None)
    } else {
        let (sps, pps) = h265_after(nals.drop_last());
        let n = nals.last();
        (
            if is_h265_sps(n) {
                Some(n)
            } else {
                sps
            },
            if is_h265_pps(n) {
                Some(n)
            } else {
                pps
            },
        )
    }
}

/// An H.265 cache is complete after a run of NALs exactly when the run held
/// an SPS and a PPS, with or without a VPS.
pub proof fn lemma_h265_complete_after(nals: Seq<Seq<u8>>)
    ensures
        (h265_after(nals).0 is Some && h265_after(nals).1 is Some) <==> ((exists|i: int|
            0 <= i < nals.len() && is_h265_sps(#[trigger] nals[i])) && (exists|j: int|
            0 <= j < nals.len() && is_h265_pps(#[trigger] nals[j]))),
    decreases nals.len(),
{
    lemma_h265_each_after(nals);
}

proof fn lemma_h265_each_after(nals: Seq<Seq<u8>>)
    ensures
        h265_after(nals).0 is Some <==> exists|i: int| 0 <= i < nals.len() && is_h265_sps(#[trigger] nals[i]),
        h265_after(nals).1 is Some <==> exists|j: int| 0 <= j < nals.len() && is_h265_pps(#[trigger] nals[j]),
    decreases nals.len(),
{
    if nals.len() > 0 {
        let r = nals.drop_last();
        lemma_h265_each_after(r);
        if exists|i: int| 0 <= i < r.len() && is_h265_sps(#[trigger] r[i]) {
            let i = choose|i: int| 0 <= i < r.len() && is_h265_sps(#[trigger] r[i]);
            assert(nals[i] == r[i]);
        }
        if exists|i: int| 0 <= i < r.len() && is_h265_pps(#[trigger] r[i]) {
            let i = choose|i: int| 0 <= i < r.len() && is_h265_pps(#[trigger] r[i]);
            assert(nals[i] == r[i]);
        }
        if exists|i: int| 0 <= i < nals.len() && is_h265_sps(#[trigger] nals[i]) {
            let i = choose|i: int| 0 <= i < nals.len() && is_h265_sps(#[trigger] nals[i]);
            if i < nals.len() - 1 {
                assert(r[i] == nals[i]);
            }
        }
        if exists|i: int| 0 <= i < nals.len() && is_h265_pps(#[trigger] nals[i]) {
            let i = choose|i: int| 0 <= i < nals.len() && is_h265_pps(#[trigger] nals[i]);
            if i < nals.len() - 1 {
                assert(r[i] == nals[i]);
            }
        }
    }
}

/// What a cache holds after one more `consume`: `consume` keeps a cache that
/// holds `h264_after(nals)` holding `h264_after(nals.push(nal))`.
pub proof fn lemma_h264_consume_step(
    nals: Seq<Seq<u8>>,
    nal: Seq<u8>,
    before: (Option<Seq<u8>>, Option<Seq<u8>>),
    after: (Option<Seq<u8>>, Option<Seq<u8>>),
)
    requires
        before == h264_after(nals),
        after.0 == if nal.len() >= 1 && nal[0] % 32 == 7 {
            Some(nal)
        } else {
            before.0
        },
        after.1 == if nal.len() >= 1 && nal[0] % 32 == 8 {
            Some(nal)
        } else {
            before.1
        },
    ensures
        after == h264_after(nals.push(nal)),
{
    assert(nals.push(nal).drop_last() =~= nals);
}

/// What a cache holds after one more `consume`: `consume` keeps a cache that
/// holds `h265_after(nals)` holding `h265_after(nals.push(nal))`.
pub proof fn lemma_h265_consume_step(
    nals: Seq<Seq<u8>>,
    nal: Seq<u8>,
    before: (Option<Seq<u8>>, Option<Seq<u8>>),
    after: (Option<Seq<u8>>, Option<Seq<u8>>),
)
    requires
        before == h265_after(nals),
        after.0 == if nal.len() >= 2 && hevc_type(nal[0]) == 33 {
            Some(nal)
        } else {
            before.0
        },
        after.1 == if nal.len() >= 2 && hevc_type(nal[0]) == 34 {
            Some(nal)
        } else {
            before.1
        },
    ensures
        after == h265_after(nals.push(nal)),
{
    assert(nals.push(nal).drop_last() =~= nals);
}

/// Unified parameter-set cache for an Annex-B video track.
#[derive(Debug, Clone)]
pub enum ParameterSetCache {
    H264(H264ParameterSetCache),
    H265(H265ParameterSetCache),
}

impl ParameterSetCache {
    /// Create an empty cache for `codec`: H.265 gets the H.265 cache, every
    /// other codec the H.264 one.
    pub fn new(codec: CodecId) -> (c: Self)
        ensures
            match c {
                ParameterSetCache::H264(h) => codec != CodecId::H265 && h.sps() is None
                    && h.pps() is None,
                ParameterSetCache::H265(h) => codec == CodecId::H265 && h.vps() is None
                    && h.sps() is None && h.pps() is None,
            },
    {
        match codec {
            CodecId::H265 => ParameterSetCache::H265(H265ParameterSetCache::new()),
            _ => ParameterSetCache::H264(H264ParameterSetCache::new()),
        }
    }

    /// Reset the cache.
    pub fn reset(&mut self)
        ensures
            match *final(self) {
                ParameterSetCache::H264(h) => *old(self) is H264 && h.sps() is None && h.pps() is None,
                ParameterSetCache::H265(h) => *old(self) is H265 && h.vps() is None && h.sps() is None
                    && h.pps() is None,
            },
    {
        match self {
            ParameterSetCache::H264(c) => c.reset(),
            ParameterSetCache::H265(c) => c.reset(),
        }
    }

    /// True when enough parameter sets have been cached to build a decoder
    /// configuration record.
    pub fn is_complete(&self) -> (b: bool)
        ensures
            b == match *self {
                ParameterSetCache::H264(h) => h.sps() is Some && h.pps() is Some,
                ParameterSetCache::H265(h) => h.sps() is Some && h.pps() is Some,
            },
    {
        match self {
            ParameterSetCache::H264(c) => c.is_complete(),
            ParameterSetCache::H265(c) => c.is_complete(),
        }
    }

    /// If `nal` is a parameter-set NAL for this codec, consume it and return true.
    pub fn consume(&mut self, nal: &[u8]) -> (b: bool)
        ensures
            match (*old(self), *final(self)) {
                (ParameterSetCache::H264(o), ParameterSetCache::H264(f)) => {
                    &&& b == (nal@.len() >= 1 && (nal@[0] % 32 == 7 || nal@[0] % 32 == 8))
                    &&& f.sps() == if b && nal@[0] % 32 == 7 { Some(nal@) } else { o.sps() }
                    &&& f.pps() == if b && nal@[0] % 32 == 8 { Some(nal@) } else { o.pps() }
                },
                (ParameterSetCache::H265(o), ParameterSetCache::H265(f)) => {
                    &&& b == (nal@.len() >= 2 && 32 <= hevc_type(nal@[0]) <= 34)
                    &&& f.vps() == if b && hevc_type(nal@[0]) == 32 { Some(nal@) } else { o.vps() }
                    &&& f.sps() == if b && hevc_type(nal@[0]) == 33 { Some(nal@) } else { o.sps() }
                    &&& f.pps() == if b && hevc_type(nal@[0]) == 34 { Some(nal@) } else { o.pps() }
                },
                _ => false,
            },
    {
        match self {
            ParameterSetCache::H264(c) => c.consume(nal),
            ParameterSetCache::H265(c) => c.consume(nal),
        }
    }
}

} // verus!
