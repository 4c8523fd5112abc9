//! Variant selection for HLS master playlists.

use vstd::prelude::*;

use crate::hls::error::{HlsError, HlsErrorView};
use crate::hls::master::Variant;
use crate::hls::parser::strings_view;
use crate::hls::text::str_chars;

verus! {

/// Capabilities used to filter variants.
#[derive(Debug, Clone)]
pub struct VariantCapabilities {
    pub max_bandwidth: Option<u32>,
    pub min_bandwidth: Option<u32>,
    pub max_width: Option<u32>,
    pub max_height: Option<u32>,
    /// Required codec prefixes, e.g. `avc1`, `mp4a`.
    pub required_codecs: Vec<String>,
    pub allow_video: bool,
    pub allow_audio: bool,
}

impl Default for VariantCapabilities {
    /// No limits and no required codecs.
    fn default() -> (c: Self)
        ensures
            c.max_bandwidth is None && c.min_bandwidth is None && c.max_width is None
                && c.max_height is None && c.required_codecs@.len() == 0 && !c.allow_video
                && !c.allow_audio,
    {
        VariantCapabilities {
            max_bandwidth: None,
            min_bandwidth: None,
            max_width: None,
            max_height: None,
            required_codecs: Vec::new(),
            allow_video: false,
            allow_audio: false,
        }
    }
}

/// `s` begins with `p`.
pub open spec fn has_prefix(s: Seq<char>, p: Seq<char>) -> bool {
    p.len() <= s.len() && s.subrange(0, p.len() as int) == p
}

/// The variant lists a codec for every required prefix in `caps`, or `caps`
/// requires none; a variant that lists no codecs is compatible with no requirement.
pub open spec fn codec_compatible_spec(v: Variant, caps: VariantCapabilities) -> bool {
    let req = strings_view(caps.required_codecs@);
    let codecs = strings_view(v.codecs@);
    req.len() == 0 || (codecs.len() > 0 && exists|i: int, j: int|
        0 <= i < req.len() && 0 <= j < codecs.len() && has_prefix(codecs[j], req[i]))
}

/// The variant is within the bandwidth and resolution limits of `caps`.
pub open spec fn within_limits_spec(v: Variant, caps: VariantCapabilities) -> bool {
    &&& (caps.min_bandwidth matches Some(min) ==> v.bandwidth >= min)
    &&& (caps.max_bandwidth matches Some(max) ==> v.bandwidth <= max)
    &&& (caps.max_width matches Some(w) ==> (v.resolution matches Some(r) ==> r.0 <= w))
    &&& (caps.max_height matches Some(h) ==> (v.resolution matches Some(r) ==> r.1 <= h))
}

fn has_prefix_exec(s: &String, p: &String) -> (b: bool)
    ensures
        b == has_prefix(s@, p@),
{
    let sc = str_chars(s.as_str());
    let pc = str_chars(p.as_str());
    if pc.len() > sc.len() {
        return false;
    }
    let mut k: usize = 0;
    while k < pc.len()
        invariant
            pc@.len() <= sc@.len(),
            k <= pc@.len(),
            sc@ == s@,
            pc@ == p@,
            forall|m: int| 0 <= m < k ==> sc@[m] == pc@[m],
        decreases pc@.len() - k,
    {
        if sc[k] != pc[k] {
            assert(sc@.subrange(0, pc@.len() as int)[k as int] != pc@[k as int]);
            return false;
        }
        k += 1;
    }
    assert(sc@.subrange(0, pc@.len() as int) =~= pc@);
    true
}

/// Whether `variant` lists a codec for every required prefix.
fn codec_compatible(variant: &Variant, caps: &VariantCapabilities) -> (b: bool)
    ensures
        b == codec_compatible_spec(*variant, *caps),
{
    let ghost req = strings_view(caps.required_codecs@);
    let ghost codecs = strings_view(variant.codecs@);
    if caps.required_codecs.len() == 0 {
        return true;
    }
    if variant.codecs.len() == 0 {
        return false;
    }
    let mut i: usize = 0;
    while i < caps.required_codecs.len()
        invariant
            i <= caps.required_codecs@.len(),
            req == strings_view(caps.required_codecs@),
            codecs == strings_view(variant.codecs@),
            forall|a: int, b: int|
                0 <= a < i && 0 <= b < codecs.len() ==> !has_prefix(codecs[b], req[a]),
        decreases caps.required_codecs@.len() - i,
    {
        let mut j: usize = 0;
        while j < variant.codecs.len()
            invariant
                i < caps.required_codecs@.len(),
                j <= variant.codecs@.len(),
                req == strings_view(caps.required_codecs@),
                codecs == strings_view(variant.codecs@),
                forall|b: int| 0 <= b < j ==> !has_prefix(codecs[b], req[i as int]),
            decreases variant.codecs@.len() - j,
        {
            if has_prefix_exec(&variant.codecs[j], &caps.required_codecs[i]) {
                assert(has_prefix(codecs[j as int], req[i as int]));
                return true;
            }
            j += 1;
        }
        i += 1;
    }
    false
}

/// Whether `variant` is within the limits of `caps`.
fn within_limits(variant: &Variant, caps: &VariantCapabilities) -> (b: bool)
    ensures
        b == within_limits_spec(*variant, *caps),
{
    if let Some(min) = caps.min_bandwidth {
        if variant.bandwidth < min {
            return false;
        }
    }
    if let Some(max) = caps.max_bandwidth {
        if variant.bandwidth > max {
            return false;
        }
    }
    if let (Some(max_w), Some((w, _))) = (caps.max_width, variant.resolution) {
        if w > max_w {
            return false;
        }
    }
    if let (Some(max_h), Some((_, h))) = (caps.max_height, variant.resolution) {
        if h > max_h {
            return false;
        }
    }
    true
}

impl VariantCapabilities {
    /// Whether a variant's codecs can be decoded.
    pub fn can_decode(&self, variant: &Variant) -> (b: bool)
        ensures
            b == codec_compatible_spec(*variant, *self),
    {
        codec_compatible(variant, self)
    }
}

/// The bandwidth a variant is ranked by: its average bandwidth when given.
pub open spec fn ranked_bandwidth(v: Variant) -> u32 {
    match v.average_bandwidth {
        Some(a) => a,
        None => v.bandwidth,
    }
}

/// `a` ranks strictly below `b`: under a bandwidth cap a variant that fits
/// ranks above one that does not; otherwise the higher bandwidth ranks above.
pub open spec fn ranks_below(a: Variant, b: Variant, caps: VariantCapabilities) -> bool {
    let x = ranked_bandwidth(a);
    let y = ranked_bandwidth(b);
    match caps.max_bandwidth {
        Some(max) => if (x <= max) != (y <= max) {
            y <= max
        } else {
            x < y
        },
        None => x < y,
    }
}

/// Some variant is both decodable and within the limits.
pub open spec fn strict_candidate_exists(vs: Seq<Variant>, caps: VariantCapabilities) -> bool {
    exists|k: int|
        0 <= k < vs.len() && codec_compatible_spec(vs[k], caps) && within_limits_spec(vs[k], caps)
}

/// Variant `k` is decodable.
pub open spec fn is_candidate(vs: Seq<Variant>, caps: VariantCapabilities, k: int) -> bool {
    0 <= k < vs.len() && codec_compatible_spec(vs[k], caps)
}

/// Variant `k` is decodable and within the limits.
pub open spec fn is_strict_candidate(vs: Seq<Variant>, caps: VariantCapabilities, k: int) -> bool {
    is_candidate(vs, caps, k) && within_limits_spec(vs[k], caps)
}

/// Variant `k` is the one selected. When some decodable variant is within
/// the limits, it is such a variant that none of them ranks above, and above
/// every later one; otherwise it is the decodable variant of lowest ranked
/// bandwidth, the first of them on a tie.
pub open spec fn is_selected(vs: Seq<Variant>, caps: VariantCapabilities, k: int) -> bool {
    if strict_candidate_exists(vs, caps) {
        &&& is_strict_candidate(vs, caps, k)
        &&& forall|j: int| is_strict_candidate(vs, caps, j) ==> !ranks_below(vs[k], vs[j], caps)
        &&& forall|j: int|
            k < j && is_strict_candidate(vs, caps, j) ==> ranks_below(vs[j], vs[k], caps)
    } else {
        &&& is_candidate(vs, caps, k)
        &&& forall|j: int| is_candidate(vs, caps, j) ==> ranked_bandwidth(vs[k]) <= ranked_bandwidth(vs[j])
        &&& forall|j: int|
            j < k && is_candidate(vs, caps, j) ==> ranked_bandwidth(vs[j]) > ranked_bandwidth(vs[k])
    }
}

/// The selection honours the limits whenever it can: if some decodable
/// variant has a bandwidth within the minimum and maximum and a resolution
/// (when it has one) within the maximum width and height, the selected
/// variant meets every one of those limits too.
pub proof fn lemma_selection_within_limits(vs: Seq<Variant>, caps: VariantCapabilities, k: int, s: int)
    requires
        0 <= k < vs.len(),
        codec_compatible_spec(vs[k], caps),
        caps.min_bandwidth matches Some(min) ==> vs[k].bandwidth >= min,
        caps.max_bandwidth matches Some(max) ==> vs[k].bandwidth <= max,
        caps.max_width matches Some(w) ==> (vs[k].resolution matches Some(r) ==> r.0 <= w),
        caps.max_height matches Some(h) ==> (vs[k].resolution matches Some(r) ==> r.1 <= h),
        is_selected(vs, caps, s),
    ensures
        0 <= s < vs.len(),
        codec_compatible_spec(vs[s], caps),
        caps.min_bandwidth matches Some(min) ==> vs[s].bandwidth >= min,
        caps.max_bandwidth matches Some(max) ==> vs[s].bandwidth <= max,
        caps.max_width matches Some(w) ==> (vs[s].resolution matches Some(r) ==> r.0 <= w),
        caps.max_height matches Some(h) ==> (vs[s].resolution matches Some(r) ==> r.1 <= h),
{
    assert(is_strict_candidate(vs, caps, k));
    assert(strict_candidate_exists(vs, caps));
}

/// The index of the highest-bandwidth variant that satisfies `caps`.
///
/// When no precise match exists, falls back to the variants that are still
/// decodable, avoiding none of them for exceeding hard limits.
pub fn select_initial_variant_index(variants: &[Variant], caps: &VariantCapabilities) -> (r: Result<
    usize,
    HlsError,
>)
    ensures
        variants@.len() == 0 ==> (r matches Err(e) && e@ == (HlsErrorView::MissingTag {
            tag: "variant"@,
        })),
        variants@.len() > 0 && !(exists|k: int| is_candidate(variants@, *caps, k)) ==> (r matches Err(
            e,
        ) && e@ == (HlsErrorView::Unsupported { feature: "no decodable variant"@ })),
        (exists|k: int| is_candidate(variants@, *caps, k)) ==> (r matches Ok(i) && is_selected(
            variants@,
            *caps,
            i as int,
        )),
{
    if variants.len() == 0 {
        return Err(HlsError::missing_tag("variant"));
    }
    let n = variants.len();
    let mut strict = false;
    let mut k: usize = 0;
    while k < n
        invariant
            n == variants@.len(),
            k <= n,
            strict <==> exists|m: int|
                0 <= m < k && codec_compatible_spec(variants@[m], *caps) && within_limits_spec(
                    variants@[m],
                    *caps,
                ),
        decreases n - k,
    {
        if codec_compatible(&variants[k], caps) && within_limits(&variants[k], caps) {
            strict = true;
        }
        k += 1;
    }
    assert(strict == strict_candidate_exists(variants@, *caps));
    let mut best: Option<usize> = None;
    let mut i: usize = 0;
    while i < n
        invariant
            n == variants@.len(),
            i <= n,
            strict == strict_candidate_exists(variants@, *caps),
            strict ==> match best {
                None => forall|j: int| 0 <= j < i ==> !is_strict_candidate(variants@, *caps, j),
                Some(b) => b < i && is_strict_candidate(variants@, *caps, b as int) && (forall|j: int|
                    0 <= j < i && is_strict_candidate(variants@, *caps, j) ==> !ranks_below(
                        variants@[b as int],
                        variants@[j],
                        *caps,
                    )) && (forall|j: int|
                    b < j < i && is_strict_candidate(variants@, *caps, j) ==> ranks_below(
                        variants@[j],
                        variants@[b as int],
                        *caps,
                    )),
            },
            !strict ==> match best {
                None => forall|j: int| 0 <= j < i ==> !is_candidate(variants@, *caps, j),
                Some(b) => b < i && is_candidate(variants@, *caps, b as int) && (forall|j: int|
                    0 <= j < i && is_candidate(variants@, *caps, j) ==> ranked_bandwidth(
                        variants@[b as int],
                    ) <= ranked_bandwidth(variants@[j])) && (forall|j: int|
                    0 <= j < b && is_candidate(variants@, *caps, j) ==> ranked_bandwidth(
                        variants@[j],
                    ) > ranked_bandwidth(variants@[b as int])),
            },
        decreases n - i,
    {
        let v = &variants[i];
        let cand = codec_compatible(v, caps) && (!strict || within_limits(v, caps));
        if cand {
            match best {
                None => {
                    best = Some(i);
                },
                Some(b) => {
                    let x = match variants[b].average_bandwidth {
                        Some(a) => a,
                        None => variants[b].bandwidth,
                    };
                    let y = match v.average_bandwidth {
                        Some(a) => a,
                        None => v.bandwidth,
                    };
                    if strict {
                        let below = match caps.max_bandwidth {
                            Some(max) => if (y <= max) != (x <= max) {
                                x <= max
                            } else {
                                y < x
                            },
                            None => y < x,
                        };
                        if !below {
                            best = Some(i);
                        }
                    } else if y < x {
                        best = Some(i);
                    }
                },
            }
        }
        i += 1;
    }
    match best {
        Some(b) => {
            assert(is_selected(variants@, *caps, b as int));
            Ok(b)
        },
        None => {
            proof {
                if strict {
                    let k = choose|k: int|
                        0 <= k < variants@.len() && codec_compatible_spec(variants@[k], *caps)
                            && within_limits_spec(variants@[k], *caps);
                    assert(is_strict_candidate(variants@, *caps, k));
                }
            }
            Err(HlsError::Unsupported { feature: String::from_str("no decodable variant") })
        },
    }
}

/// Select the highest-bandwidth variant that satisfies `caps`; see
/// [`select_initial_variant_index`].
pub fn select_initial_variant<'a>(variants: &'a [Variant], caps: &VariantCapabilities) -> (r:
    Result<&'a Variant, HlsError>)
    ensures
        variants@.len() == 0 ==> (r matches Err(e) && e@ == (HlsErrorView::MissingTag {
            tag: "variant"@,
        })),
        variants@.len() > 0 && !(exists|k: int| is_candidate(variants@, *caps, k)) ==> (r matches Err(
            e,
        ) && e@ == (HlsErrorView::Unsupported { feature: "no decodable variant"@ })),
        (exists|k: int| is_candidate(variants@, *caps, k)) ==> (r matches Ok(v) && exists|i: int|
            is_selected(variants@, *caps, i) && 0 <= i < variants@.len() && *v == variants@[i]),
{
    match select_initial_variant_index(variants, caps) {
        Ok(i) => Ok(&variants[i]),
        Err(e) => Err(e),
    }
}

/// Chooses a variant for a client.
pub trait VariantSelector {
    /// The variant to start with.
    fn select<'a>(&self, variants: &'a [Variant], caps: &VariantCapabilities) -> Result<
        &'a Variant,
        HlsError,
    >;
}

/// Default bandwidth-based selector.
#[derive(Debug, Clone)]
pub struct BandwidthSelector;

impl VariantSelector for BandwidthSelector {
    /// The variant `select_initial_variant` picks.
    fn select<'a>(&self, variants: &'a [Variant], caps: &VariantCapabilities) -> (r: Result<
        &'a Variant,
        HlsError,
    >)
        ensures
            (exists|k: int| is_candidate(variants@, *caps, k)) ==> (r matches Ok(v) && exists|
                i: int,
            | is_selected(variants@, *caps, i) && 0 <= i < variants@.len() && *v == variants@[i]),
    {
        select_initial_variant(variants, caps)
    }
}

} // verus!
