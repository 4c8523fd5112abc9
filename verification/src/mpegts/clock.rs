//! PCR clock recovery, drift, jitter, and live edge tracking.

use vstd::prelude::*;

verus! {

/// 27 MHz clock ticks per second.
pub const PCR_HZ: u64 = 27_000_000;

/// Diagnostic state for the transport clock.
#[derive(Debug, Clone, Copy, PartialEq, Eq)]
pub struct ClockState {
    pub pcr_hz: u64,
    pub last_pcr: Option<u64>,
    pub last_wall_ms: Option<u64>,
    pub jitter_hz: Option<u64>,
    pub drift_hz_per_s: Option<i64>,
    pub live_edge_ms: Option<u64>,
}

impl ClockState {
    /// The state before any PCR has been seen.
    pub fn initial() -> (s: Self)
        ensures
            s == clock_state_initial(),
    {
        ClockState {
            pcr_hz: PCR_HZ,
            last_pcr: None,
            last_wall_ms: None,
            jitter_hz: None,
            drift_hz_per_s: None,
            live_edge_ms: None,
        }
    }
}

/// The state before any PCR has been seen.
pub open spec fn clock_state_initial() -> ClockState {
    ClockState {
        pcr_hz: PCR_HZ,
        last_pcr: None,
        last_wall_ms: None,
        jitter_hz: None,
        drift_hz_per_s: None,
        live_edge_ms: None,
    }
}

/// PCR clock recovery using a simple low-pass filter.
#[derive(Debug)]
pub struct PcrClock {
    state: ClockState,
    last_pcr: Option<u64>,
    last_arrival_ms: Option<u64>,
    jitter_hz: u64,
    drift_hz_per_s: i64,
    sample_count: u64,
}

/// Abstract value of a `PcrClock`.
pub struct PcrModel {
    pub state: ClockState,
    pub last_pcr: Option<u64>,
    pub last_arrival_ms: Option<u64>,
    pub jitter_hz: u64,
    pub drift_hz_per_s: i64,
    pub sample_count: u64,
}

/// Convert a 27 MHz PCR value to milliseconds.
pub open spec fn pcr_to_ms_spec(pcr: u64) -> u64 {
    (pcr / 27_000) as u64
}

/// The absolute value, clamped into `u64`.
pub open spec fn abs_u64(d: int) -> u64 {
    let a = if d < 0 {
        -d
    } else {
        d
    };
    if a > u64::MAX {
        u64::MAX
    } else {
        a as u64
    }
}

/// `d`, clamped into `i64`.
pub open spec fn clamp_i64(d: int) -> i64 {
    if d > i64::MAX {
        i64::MAX
    } else if d < i64::MIN {
        i64::MIN
    } else {
        d as i64
    }
}

/// `a / b` rounded toward zero.
pub open spec fn div_trunc(a: int, b: int) -> int {
    if a < 0 {
        -((-a) / b)
    } else {
        a / b
    }
}

/// The clock after observing `pcr` (27 MHz ticks) at wall time `wall_ms`, and the
/// state it reports. Without a wall time the PCR itself serves as the wall clock.
pub open spec fn pcr_feed(m: PcrModel, pcr: u64, wall_ms: Option<u64>) -> (PcrModel, ClockState) {
    let wall = match wall_ms {
        Some(w) => w,
        None => pcr_to_ms_spec(pcr),
    };
    let update = m.last_pcr is Some && m.last_arrival_ms is Some && pcr > m.last_pcr->0 && wall
        > m.last_arrival_ms->0;
    let last_pcr = m.last_pcr->0;
    let last_wall = m.last_arrival_ms->0;
    let delta_pcr = pcr - last_pcr;
    let dw = (wall - last_wall) * 27_000;
    let delta_wall = if dw > u64::MAX {
        u64::MAX as int
    } else {
        dw
    };
    let diff = delta_pcr - delta_wall;
    let count = m.sample_count;
    let denom = if count == u64::MAX {
        u64::MAX as int
    } else {
        count + 1
    };
    let q = (m.jitter_hz * count + abs_u64(diff)) / denom;
    let jitter = if update {
        if q > u64::MAX {
            u64::MAX
        } else {
            q as u64
        }
    } else {
        m.jitter_hz
    };
    let interval = if wall - last_wall > 1 {
        wall - last_wall
    } else {
        1
    };
    let drift = if update && count > 0 {
        clamp_i64(div_trunc(diff * 1000, interval))
    } else {
        m.drift_hz_per_s
    };
    let n = if count == u64::MAX {
        count
    } else {
        (count + 1) as u64
    };
    let st = ClockState {
        pcr_hz: PCR_HZ,
        last_pcr: Some(pcr),
        last_wall_ms: Some(wall),
        jitter_hz: if n > 1 {
            Some(jitter)
        } else {
            None
        },
        drift_hz_per_s: if n > 1 {
            Some(drift)
        } else {
            None
        },
        live_edge_ms: Some(wall),
    };
    (
        PcrModel {
            state: st,
            last_pcr: Some(pcr),
            last_arrival_ms: Some(wall),
            jitter_hz: jitter,
            drift_hz_per_s: drift,
            sample_count: n,
        },
        st,
    )
}

/// The model of a clock that has seen no PCR yet.
pub open spec fn pcr_initial() -> PcrModel {
    PcrModel {
        state: clock_state_initial(),
        last_pcr: None,
        last_arrival_ms: None,
        jitter_hz: 0,
        drift_hz_per_s: 0,
        sample_count: 0,
    }
}

/// The model of a new clock after the feeds `feeds` (PCR and optional wall
/// time), in order.
pub open spec fn pcr_history(feeds: Seq<(u64, Option<u64>)>) -> PcrModel
    decreases feeds.len(),
{
    if feeds.len() == 0 {
        pcr_initial()
    } else {
        pcr_feed(pcr_history(feeds.drop_last()), feeds.last().0, feeds.last().1).0
    }
}

/// Over any history of feeds, the state reported is the initial one before
/// the first feed, and after a feed the one that feed returned: the 27 MHz
/// rate, the last PCR and its wall time (the PCR in milliseconds when none
/// was given) as the live edge, and jitter and drift once more than one PCR
/// was seen.
pub proof fn lemma_pcr_history(feeds: Seq<(u64, Option<u64>)>)
    ensures
        pcr_history(feeds).sample_count == if feeds.len() > u64::MAX {
            u64::MAX as int
        } else {
            feeds.len() as int
        },
        feeds.len() == 0 ==> pcr_history(feeds).state == clock_state_initial(),
        feeds.len() > 0 ==> ({
            let (pcr, w) = feeds.last();
            let wall = match w {
                Some(x) => x,
                None => pcr_to_ms_spec(pcr),
            };
            let st = pcr_history(feeds).state;
            &&& st == pcr_feed(pcr_history(feeds.drop_last()), pcr, w).1
            &&& st.pcr_hz == PCR_HZ
            &&& st.last_pcr == Some(pcr)
            &&& st.last_wall_ms == Some(wall)
            &&& st.live_edge_ms == Some(wall)
            &&& (st.jitter_hz is Some <==> feeds.len() >= 2)
            &&& (st.drift_hz_per_s is Some <==> feeds.len() >= 2)
        }),
    decreases feeds.len(),
{
    if feeds.len() > 0 {
        lemma_pcr_history(feeds.drop_last());
    }
}

impl PcrClock {
    /// The clock's abstract value.
    pub closed spec fn model(&self) -> PcrModel {
        PcrModel {
            state: self.state,
            last_pcr: self.last_pcr,
            last_arrival_ms: self.last_arrival_ms,
            jitter_hz: self.jitter_hz,
            drift_hz_per_s: self.drift_hz_per_s,
            sample_count: self.sample_count,
        }
    }

    /// A clock that has seen no PCR yet.
    pub fn new() -> (c: Self)
        ensures
            c.model() == (PcrModel {
                state: clock_state_initial(),
                last_pcr: None,
                last_arrival_ms: None,
                jitter_hz: 0,
                drift_hz_per_s: 0,
                sample_count: 0,
            }),
    {
        PcrClock {
            state: ClockState::initial(),
            last_pcr: None,
            last_arrival_ms: None,
            jitter_hz: 0,
            drift_hz_per_s: 0,
            sample_count: 0,
        }
    }

    /// Feed a new PCR value and optional wall clock (ms since an arbitrary epoch).
    ///
    /// `pcr` is in 27 MHz ticks. If `wall_ms` is `None`, wall is assumed equal to PCR.
    pub fn feed(&mut self, pcr: u64, wall_ms: Option<u64>) -> (r: ClockState)
        ensures
            (final(self).model(), r) == pcr_feed(old(self).model(), pcr, wall_ms),
    {
        let wall = match wall_ms {
            Some(w) => w,
            None => pcr_to_ms(pcr),
        };
        if let (Some(last_pcr), Some(last_wall)) = (self.last_pcr, self.last_arrival_ms) {
            if pcr > last_pcr && wall > last_wall {
                let delta_pcr = pcr - last_pcr;
                let wspan = wall - last_wall;
                let delta_wall: u64 = if wspan > u64::MAX / 27_000 {
                    u64::MAX
                } else {
                    wspan * 27_000
                };
                let diff: i128 = (delta_pcr as i128) - (delta_wall as i128);
                let abs_diff: u64 = if diff < 0 {
                    (-diff) as u64
                } else {
                    diff as u64
                };
                let count = self.sample_count;
                let denom = count.saturating_add(1);
                assert((self.jitter_hz as u128) * (count as u128) <= 0xffff_ffff_ffff_fffe_0000_0000_0000_0001)
                    by (nonlinear_arith)
                    requires
                        self.jitter_hz <= u64::MAX,
                        count <= u64::MAX,
                ;
                let numerator = (self.jitter_hz as u128) * (count as u128) + (abs_diff as u128);
                let q = numerator / (denom as u128);
                self.jitter_hz = if q > 0xffff_ffff_ffff_ffff {
                    0xffff_ffff_ffff_ffff
                } else {
                    q as u64
                };
                if self.sample_count > 0 {
                    let span = wall - last_wall;
                    let interval: u64 = if span > 1 {
                        span
                    } else {
                        1
                    };
                    let mag = (abs_diff as u128) * 1000 / (interval as u128);
                    let drift: i128 = if diff < 0 {
                        -(mag as i128)
                    } else {
                        mag as i128
                    };
                    self.drift_hz_per_s = if drift > 0x7fff_ffff_ffff_ffff {
                        0x7fff_ffff_ffff_ffff
                    } else if drift < -0x8000_0000_0000_0000 {
                        -0x8000_0000_0000_0000
                    } else {
                        drift as i64
                    };
                }
            }
        }
        self.sample_count = self.sample_count.saturating_add(1);
        self.last_pcr = Some(pcr);
        self.last_arrival_ms = Some(wall);
        self.state = ClockState {
            pcr_hz: PCR_HZ,
            last_pcr: self.last_pcr,
            last_wall_ms: self.last_arrival_ms,
            jitter_hz: if self.sample_count > 1 {
                Some(self.jitter_hz)
            } else {
                None
            },
            drift_hz_per_s: if self.sample_count > 1 {
                Some(self.drift_hz_per_s)
            } else {
                None
            },
            live_edge_ms: Some(wall),
        };
        self.state
    }

    /// Return the latest clock state.
    pub fn state(&self) -> (s: ClockState)
        ensures
            s == self.model().state,
    {
        self.state
    }
}

/// Convert a 27 MHz PCR value to milliseconds.
pub fn pcr_to_ms(pcr: u64) -> (ms: u64)
    ensures
        ms == pcr_to_ms_spec(pcr),
{
    pcr / (PCR_HZ / 1000)
}

/// Convert milliseconds to a 27 MHz PCR value (no wrap handling).
pub fn ms_to_pcr(ms: u64) -> (pcr: u64)
    requires
        ms * 27_000 <= u64::MAX,
    ensures
        pcr == ms * 27_000,
{
    ms * (PCR_HZ / 1000)
}

/// Converting milliseconds to PCR ticks and back gives the milliseconds.
pub proof fn lemma_ms_pcr_round_trip(ms: u64)
    requires
        ms * 27_000 <= u64::MAX,
    ensures
        pcr_to_ms_spec((ms * 27_000) as u64) == ms,
{
    assert((ms * 27_000) / 27_000 == ms) by (nonlinear_arith);
}

} // verus!
