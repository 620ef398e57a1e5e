//! Position solving candidate: one space vehicle's observations at one epoch.
use vstd::prelude::*;

use crate::cfg::{Config, InternalDelay, Mode};
use crate::solutions::{PVTBias, PVTSVData};
use crate::solver::{Error, InterpolationResult, Vector3D};
use crate::time::{Duration, Epoch, SPEED_OF_LIGHT_NM_PER_NS};

verus! {

/// GNSS constellation.
#[derive(Clone, Copy, Debug, PartialEq, Eq, Structural, Hash)]
pub enum Constellation {
    GPS,
    Glonass,
    Galileo,
    BeiDou,
    QZSS,
    IRNSS,
    SBAS,
}

/// Space vehicle identity.
#[derive(Clone, Copy, Debug, PartialEq, Eq, Structural, Hash)]
pub struct SV {
    pub constellation: Constellation,
    pub prn: u8,
}

/// Signal observation to attach to each candidate.
#[derive(Clone, Copy, Debug, PartialEq, Eq)]
pub struct Observation {
    /// Carrier frequency, in Hz.
    pub frequency: u64,
    /// Observed value: nanometers for a pseudo-range.
    pub value: i64,
    /// Optional SNR, in thousandths of a dB.
    pub snr: Option<i64>,
}

/// Whether every observation of `s` lacks an SNR.
pub open spec fn no_snr(s: Seq<Observation>) -> bool {
    forall|i: int| 0 <= i < s.len() ==> (#[trigger] s[i]).snr.is_none()
}

/// `r` is the largest SNR found in `s`, or none when no observation carries one.
pub open spec fn is_best_snr(s: Seq<Observation>, r: Option<i64>) -> bool {
    match r {
        None => no_snr(s),
        Some(v) => (exists|i: int| 0 <= i < s.len() && (#[trigger] s[i]).snr == Some(v)) && (
        forall|i: int|
            0 <= i < s.len() && (#[trigger] s[i]).snr.is_some() ==> s[i].snr.unwrap() <= v),
    }
}

/// Index `i` of `s` is the preferred pseudo-range: the first one of highest SNR,
/// or the first one when no observation carries an SNR.
pub open spec fn is_preferred_at(s: Seq<Observation>, i: int) -> bool {
    &&& 0 <= i < s.len()
    &&& if no_snr(s) {
        i == 0
    } else {
        &&& s[i].snr.is_some()
        &&& forall|j: int|
            0 <= j < s.len() && (#[trigger] s[j]).snr.is_some() ==> s[j].snr.unwrap()
                <= s[i].snr.unwrap()
        &&& forall|j: int|
            0 <= j < i && (#[trigger] s[j]).snr.is_some() ==> s[j].snr.unwrap() < s[i].snr.unwrap()
    }
}

/// Largest SNR among the observations of `obs`.
fn best_snr_of(obs: &Vec<Observation>) -> (r: Option<i64>)
    ensures
        is_best_snr(obs@, r),
{
    let mut best: Option<i64> = None;
    let mut at: usize = 0;
    let mut i: usize = 0;
    while i < obs.len()
        invariant
            i <= obs.len(),
            is_best_snr(obs@.take(i as int), best),
            best.is_some() ==> at < i && obs@[at as int].snr == best,
        decreases obs.len() - i,
    {
        let o = obs[i];
        if let Some(s) = o.snr {
            match best {
                None => {
                    best = Some(s);
                    at = i;
                },
                Some(b) => {
                    if s > b {
                        best = Some(s);
                        at = i;
                    }
                },
            }
        }
        i = i + 1;
        proof {
            let p = obs@.take(i as int);
            assert(forall|j: int| 0 <= j < i ==> p[j] == obs@[j]);
            assert(forall|j: int| 0 <= j < i - 1 ==> p[j] == obs@.take(i - 1)[j]);
            if best.is_some() {
                assert(p[at as int].snr == best);
            }
        }
    }
    assert(obs@.take(obs.len() as int) =~= obs@);
    best
}


/// Larger of two optional SNRs, absence ranking below any value.
pub open spec fn max_snr(a: Option<i64>, b: Option<i64>) -> Option<i64> {
    match (a, b) {
        (None, _) => b,
        (_, None) => a,
        (Some(x), Some(y)) => if x >= y { a } else { b },
    }
}

proof fn lemma_best_snr_concat(a: Seq<Observation>, b: Seq<Observation>, x: Option<i64>, y: Option<i64>)
    requires
        is_best_snr(a, x),
        is_best_snr(b, y),
    ensures
        is_best_snr(a + b, max_snr(x, y)),
{
    let s = a + b;
    assert(forall|i: int| 0 <= i < a.len() ==> s[i] == a[i]);
    assert(forall|i: int| 0 <= i < b.len() ==> s[a.len() + i] == b[i]);
    assert forall|i: int| 0 <= i < s.len() implies (#[trigger] s[i]) == if i < a.len() { a[i] } else { b[i - a.len()] } by {}
    match max_snr(x, y) {
        None => {},
        Some(v) => {
            if x == Some(v) {
                let i = choose|i: int| 0 <= i < a.len() && (#[trigger] a[i]).snr == Some(v);
                assert(s[i].snr == Some(v));
            } else {
                let i = choose|i: int| 0 <= i < b.len() && (#[trigger] b[i]).snr == Some(v);
                assert(s[a.len() + i].snr == Some(v));
            }
        },
    }
}

/// Space vehicle clock offset, drift and drift rate, in picoseconds, ps/s and ps/s².
#[derive(Clone, Copy, Debug, PartialEq, Eq, Structural)]
pub struct ClockState {
    pub offset: i64,
    pub drift: i64,
    pub drift_rate: i64,
}

/// Carrier band of an observation: its frequency in whole kHz.
pub open spec fn band_khz(o: Observation) -> u64 {
    o.frequency / 1000
}

/// Whether `s` holds observations on at least two distinct bands.
pub open spec fn is_dual(s: Seq<Observation>) -> bool {
    exists|i: int, j: int|
        0 <= i < s.len() && 0 <= j < s.len() && band_khz(#[trigger] s[i]) != band_khz(#[trigger] s[j])
}

/// Whether `obs` spans at least two bands.
fn dual_band(obs: &Vec<Observation>) -> (r: bool)
    ensures
        r == is_dual(obs@),
{
    if obs.len() == 0 {
        return false;
    }
    let first = obs[0].frequency / 1000;
    let mut i: usize = 1;
    while i < obs.len()
        invariant
            1 <= i <= obs.len(),
            first == band_khz(obs@[0]),
            forall|j: int| 0 <= j < i ==> band_khz(#[trigger] obs@[j]) == first,
        decreases obs.len() - i,
    {
        if obs[i].frequency / 1000 != first {
            assert(band_khz(obs@[i as int]) != band_khz(obs@[0]));
            return true;
        }
        i = i + 1;
    }
    false
}

/// Whole MHz of the frequency, which classifies a code into its slot.
pub open spec fn band_mhz(o: Observation) -> u64 {
    o.frequency / 1000000
}

/// Index of the last observation of `s` in the `mhz` band, or -1.
pub open spec fn last_in_band(s: Seq<Observation>, mhz: u64) -> int
    decreases s.len(),
{
    if s.len() == 0 {
        -1
    } else if band_mhz(s.last()) == mhz {
        s.len() - 1
    } else {
        last_in_band(s.drop_last(), mhz)
    }
}

proof fn lemma_last_in_band_range(s: Seq<Observation>, mhz: u64)
    ensures
        -1 <= last_in_band(s, mhz) < s.len(),
        last_in_band(s, mhz) >= 0 ==> band_mhz(s[last_in_band(s, mhz)]) == mhz,
    decreases s.len(),
{
    if s.len() > 0 {
        lemma_last_in_band_range(s.drop_last(), mhz);
    }
}

/// L1 carrier frequency, in Hz.
pub const L1_FREQ: i128 = 1575420000;
/// L2 carrier frequency, in Hz.
pub const L2_FREQ: i128 = 1227600000;
/// L5 carrier frequency, in Hz.
pub const L5_FREQ: i128 = 1176450000;

/// Ionosphere-free combination of `c1` on L1 with `cx` on a carrier of
/// frequency `fx`, rounded down to the nanometer.
pub open spec fn iono_free(c1: int, cx: int, fx: int) -> int {
    (L1_FREQ * L1_FREQ * c1 - fx * fx * cx) / (L1_FREQ * L1_FREQ - fx * fx)
}

/// The ionosphere-free combination that the code observations `s` allow:
/// none without an L1 code, without both an L2 and an L5 code, or where the
/// combination leaves the range of an `i64`.
pub open spec fn combination_of(s: Seq<Observation>) -> Option<Observation> {
    let i1 = last_in_band(s, 1575);
    let i2 = last_in_band(s, 1227);
    let i5 = last_in_band(s, 1176);
    if i1 < 0 || (i2 < 0 && i5 < 0) {
        None
    } else {
        let (ix, fx) = if i2 >= 0 { (i2, L2_FREQ as int) } else { (i5, L5_FREQ as int) };
        let v = iono_free(s[i1].value as int, s[ix].value as int, fx);
        if i64::MIN <= v <= i64::MAX {
            Some(Observation { frequency: s[i1].frequency, value: v as i64, snr: None })
        } else {
            None
        }
    }
}

/// Combining equal pseudo-ranges gives that same pseudo-range back: when
/// the L1 code and the companion code that the combination picks both read
/// `v`, the combination reads `v`.
pub proof fn lemma_combination_of_equal_codes(s: Seq<Observation>, v: i64)
    requires
        last_in_band(s, 1575) >= 0,
        last_in_band(s, 1227) >= 0 || last_in_band(s, 1176) >= 0,
        s[last_in_band(s, 1575)].value == v,
        last_in_band(s, 1227) >= 0 ==> s[last_in_band(s, 1227)].value == v,
        last_in_band(s, 1227) < 0 ==> s[last_in_band(s, 1176)].value == v,
    ensures
        combination_of(s) matches Some(o) && o.value == v && o.snr.is_none()
            && o.frequency == s[last_in_band(s, 1575)].frequency,
{
    lemma_last_in_band_range(s, 1575);
    lemma_last_in_band_range(s, 1227);
    lemma_last_in_band_range(s, 1176);
    lemma_iono_free_equal(v as int, L2_FREQ as int);
    lemma_iono_free_equal(v as int, L5_FREQ as int);
}

proof fn lemma_iono_free_equal(v: int, fx: int)
    requires
        fx == L2_FREQ || fx == L5_FREQ,
    ensures
        iono_free(v, v, fx) == v,
{
    let b: int = L1_FREQ * L1_FREQ;
    let g: int = fx * fx;
    assert(b == 2481948176400000000);
    if fx == L2_FREQ {
        assert(g == 1507001760000000000) by (nonlinear_arith)
            requires
                fx == 1227600000,
                g == fx * fx;
    } else {
        assert(g == 1384034602500000000) by (nonlinear_arith)
            requires
                fx == 1176450000,
                g == fx * fx;
    }
    let d: int = b - g;
    assert(d > 0);
    assert(b * v - g * v == d * v) by (nonlinear_arith)
        requires
            d == b - g;
    vstd::arithmetic::div_mod::lemma_div_multiples_vanish(v, d);
}

/// `o` passes an SNR mask of `min_snr`.
pub open spec fn passes_snr(o: Observation, min_snr: i64) -> bool {
    o.snr.is_some() && o.snr.unwrap() >= min_snr
}

/// Observations of `s` that pass an SNR mask of `min_snr`, in order.
pub open spec fn snr_masked(s: Seq<Observation>, min_snr: i64) -> Seq<Observation>
    decreases s.len(),
{
    if s.len() == 0 {
        s
    } else {
        let r = snr_masked(s.drop_last(), min_snr);
        if passes_snr(s.last(), min_snr) {
            r.push(s.last())
        } else {
            r
        }
    }
}

/// Masking twice with the same threshold is masking once.
pub proof fn lemma_snr_mask_idempotent(s: Seq<Observation>, min_snr: i64)
    ensures
        snr_masked(snr_masked(s, min_snr), min_snr) == snr_masked(s, min_snr),
    decreases s.len(),
{
    if s.len() > 0 {
        let r = snr_masked(s.drop_last(), min_snr);
        lemma_snr_mask_idempotent(s.drop_last(), min_snr);
        if passes_snr(s.last(), min_snr) {
            assert(r.push(s.last()).drop_last() =~= r);
        }
    }
}

/// Observations of `obs` that pass an SNR mask of `min_snr`, in order.
fn mask_snr(obs: &Vec<Observation>, min_snr: i64) -> (r: Vec<Observation>)
    ensures
        r@ == snr_masked(obs@, min_snr),
{
    let mut out: Vec<Observation> = Vec::new();
    let mut i: usize = 0;
    while i < obs.len()
        invariant
            i <= obs.len(),
            out@ == snr_masked(obs@.take(i as int), min_snr),
        decreases obs.len() - i,
    {
        let o = obs[i];
        assert(obs@.take(i + 1).drop_last() =~= obs@.take(i as int));
        let keep = match o.snr {
            Some(v) => v >= min_snr,
            None => false,
        };
        if keep {
            out.push(o);
        }
        i = i + 1;
    }
    assert(obs@.take(obs.len() as int) =~= obs@);
    out
}

/// Index of the preferred pseudo-range of `s`.
pub open spec fn preferred_index(s: Seq<Observation>) -> int {
    choose|i: int| is_preferred_at(s, i)
}

proof fn lemma_preferred_unique(s: Seq<Observation>, i: int, j: int)
    requires
        is_preferred_at(s, i),
        is_preferred_at(s, j),
    ensures
        i == j,
{
    if !no_snr(s) {
        assert(s[i].snr.unwrap() <= s[j].snr.unwrap());
        assert(s[j].snr.unwrap() <= s[i].snr.unwrap());
    }
}

/// Whole nanoseconds that light takes over `range` nanometers, rounded down.
pub open spec fn flight_nanos(range: i64) -> int {
    range as int / SPEED_OF_LIGHT_NM_PER_NS as int
}

/// Signal propagation delay of `c` with code observations `code`: time of
/// flight of the preferred pseudo-range, plus the clock correction and group
/// delay that `cfg` applies.
pub open spec fn delay_of(code: Seq<Observation>, c: Candidate, cfg: Config) -> int {
    flight_nanos(code[preferred_index(code)].value)
        + (if cfg.modeling.sv_clock_bias { c.clock_corr.nanos as int } else { 0 })
        + (if cfg.modeling.sv_total_group_delay && c.tgd.is_some() { c.tgd.unwrap().nanos as int } else { 0 })
}

/// Signal propagation delay of `c`.
pub open spec fn propagation_nanos(c: Candidate, cfg: Config) -> int {
    delay_of(c.code@, c, cfg)
}

/// Transmission epoch of `c`, in nanoseconds.
pub open spec fn tx_nanos(c: Candidate, cfg: Config) -> int {
    c.t.nanos - propagation_nanos(c, cfg)
}

/// Largest physically sound propagation delay: 100 ms.
pub const MAX_PROPAGATION_NANOS: i64 = 100000000;

/// With code observations `code`, the propagation delay of `c` is
/// positive, at most 100 ms, and its transmission epoch can be represented.
pub open spec fn plausible_with(code: Seq<Observation>, c: Candidate, cfg: Config) -> bool {
    &&& 0 < delay_of(code, c, cfg) <= MAX_PROPAGATION_NANOS
    &&& i128::MIN <= c.t.nanos - delay_of(code, c, cfg)
}

/// The propagation delay of `c` is positive, at most 100 ms, and its
/// transmission epoch can be represented.
pub open spec fn plausible_delay(c: Candidate, cfg: Config) -> bool {
    plausible_with(c.code@, c, cfg)
}

/// What the bias providers report for one candidate, in nanometers.
#[derive(Clone, Copy, Debug, PartialEq, Eq, Structural)]
pub struct BiasSources {
    /// The tropospheric provider measured nothing, so the model applies.
    pub tropo_needs_modeling: bool,
    /// Modeled tropospheric delay.
    pub tropo_model: i64,
    /// Tropospheric delay measured by the provider.
    pub tropo_measured: Option<i64>,
    /// Ionospheric delay from the provider.
    pub iono: Option<i64>,
}

/// One row of the navigation system, short of the geometric range.
#[derive(Clone, Copy, Debug, PartialEq, Eq)]
pub struct NavigationRow {
    /// Space vehicle.
    pub sv: SV,
    /// Space vehicle position.
    pub sv_pos: Vector3D,
    /// Measurement used.
    pub code: Observation,
    /// Measurement less the modeled delays, plus the hardware delay
    /// compensations, in nanometers; the row's observation is this less the
    /// geometric range.
    pub observed: i128,
    /// Data attached to the space vehicle.
    pub sv_data: PVTSVData,
}

/// Length that light covers in `d`, in nanometers.
pub open spec fn light_nm(d: Duration) -> int {
    d.nanos as int * SPEED_OF_LIGHT_NM_PER_NS as int
}

/// The measurement that a candidate contributes under `cfg`.
pub open spec fn measurement_of(c: Candidate, cfg: Config) -> Option<Observation> {
    match cfg.method {
        Mode::SPP => if c.code@.len() > 0 { Some(c.code@[preferred_index(c.code@)]) } else { None },
        Mode::PPP => combination_of(c.code@),
    }
}

/// Tropospheric delay applied under `cfg`, and how it was obtained.
pub open spec fn tropo_of(b: BiasSources, cfg: Config) -> PVTBias {
    if !cfg.modeling.tropo_delay {
        PVTBias { measured: None, modeled: None }
    } else if b.tropo_needs_modeling {
        PVTBias { measured: None, modeled: Some(b.tropo_model) }
    } else if b.tropo_measured.is_some() {
        PVTBias { measured: b.tropo_measured, modeled: None }
    } else {
        PVTBias { measured: None, modeled: None }
    }
}

/// Ionospheric delay applied under `cfg`.
pub open spec fn iono_of(b: BiasSources, cfg: Config) -> PVTBias {
    if cfg.method == Mode::SPP && cfg.modeling.iono_delay && b.iono.is_some() {
        PVTBias { measured: None, modeled: b.iono }
    } else {
        PVTBias { measured: None, modeled: None }
    }
}

/// Value of a delay, zero when there is none.
pub open spec fn bias_nm(b: PVTBias) -> int {
    if b.measured.is_some() {
        b.measured.unwrap() as int
    } else if b.modeled.is_some() {
        b.modeled.unwrap() as int
    } else {
        0
    }
}

/// Sum of the delays modeled for a candidate, in nanometers.
pub open spec fn models_nm(c: Candidate, b: BiasSources, cfg: Config) -> int {
    (if cfg.modeling.sv_clock_bias { -light_nm(c.clock_corr) } else { 0 })
        + bias_nm(tropo_of(b, cfg)) + bias_nm(iono_of(b, cfg))
}

/// Sum of the hardware delays of `s` that apply to `frequency`, as lengths.
pub open spec fn int_delay_nm(s: Seq<InternalDelay>, frequency: u64) -> int
    decreases s.len(),
{
    if s.len() == 0 {
        0
    } else {
        int_delay_nm(s.drop_last(), frequency)
            + if s.last().frequency == frequency { light_nm(s.last().delay) } else { 0 }
    }
}

/// Hardware delay compensation for a measurement on `frequency`, in nanometers.
pub open spec fn compensation_nm(cfg: Config, frequency: u64) -> int {
    (if cfg.externalref_delay.is_some() { -light_nm(cfg.externalref_delay.unwrap()) } else { 0 })
        + int_delay_nm(cfg.int_delay@, frequency)
}

/// Largest length a duration of `i64` nanoseconds stands for, in nanometers.
pub open spec fn max_light_nm() -> int {
    2765097373977159828519256064int
}

proof fn lemma_light_bound(d: Duration)
    ensures
        -max_light_nm() <= light_nm(d) <= max_light_nm(),
{
    assert(-max_light_nm() <= light_nm(d) <= max_light_nm()) by (nonlinear_arith)
        requires
            -9223372036854775808 <= d.nanos <= 9223372036854775807;
}

/// Why a candidate cannot form a row under `cfg`, if it cannot.
pub open spec fn resolve_error(c: Candidate, cfg: Config) -> Option<Error> {
    if c.state.is_none() {
        Some(Error::UnresolvedState)
    } else if measurement_of(c, cfg).is_none() {
        Some(if cfg.method == Mode::SPP { Error::MissingPseudoRange } else { Error::PseudoRangeCombination })
    } else {
        None
    }
}

/// `row` is the navigation row of candidate `c` with biases `b` under `cfg`.
pub open spec fn is_row_of(row: NavigationRow, c: Candidate, b: BiasSources, cfg: Config) -> bool {
    let code = measurement_of(c, cfg).unwrap();
    &&& c.state.is_some()
    &&& measurement_of(c, cfg).is_some()
    &&& row.sv == c.sv
    &&& row.sv_pos == c.state.unwrap().sky_pos
    &&& row.code == code
    &&& row.observed == code.value - models_nm(c, b, cfg) + compensation_nm(cfg, code.frequency)
    &&& row.sv_data.azimuth == c.state.unwrap().azimuth
    &&& row.sv_data.elevation == c.state.unwrap().elevation
    &&& row.sv_data.tropo_bias == tropo_of(b, cfg)
    &&& row.sv_data.iono_bias == iono_of(b, cfg)
}

/// Sum of the hardware delays of `s` that apply to `frequency`, in nanometers.
fn sum_int_delays(s: &Vec<InternalDelay>, frequency: u64) -> (r: i128)
    requires
        s@.len() <= u32::MAX,
    ensures
        r == int_delay_nm(s@, frequency),
        -11876002788722285540478013072610426880 <= r <= 11876002788722285540478013072610426880,
{
    let mut acc: i128 = 0;
    let mut i: usize = 0;
    while i < s.len()
        invariant
            i <= s@.len() <= u32::MAX,
            acc == int_delay_nm(s@.take(i as int), frequency),
            -i * max_light_nm() <= acc <= i * max_light_nm(),
        decreases s.len() - i,
    {
        let d = s[i];
        assert(s@.take(i + 1).drop_last() =~= s@.take(i as int));
        proof {
            lemma_light_bound(d.delay);
        }
        if d.frequency == frequency {
            acc = acc + d.delay.nanos as i128 * SPEED_OF_LIGHT_NM_PER_NS as i128;
        }
        i = i + 1;
    }
    assert(s@.take(s@.len() as int) =~= s@);
    assert(-11876002788722285540478013072610426880 <= acc <= 11876002788722285540478013072610426880);
    acc
}

/// One space vehicle's contribution at a receive epoch.
#[derive(Clone, Debug)]
pub struct Candidate {
    /// Space vehicle.
    pub sv: SV,
    /// Sampling (receive) epoch.
    pub t: Epoch,
    /// Transmission epoch.
    pub t_tx: Epoch,
    /// Resolved state, once interpolated.
    pub state: Option<InterpolationResult>,
    /// Total group delay.
    pub tgd: Option<Duration>,
    /// Clock state.
    pub clock_state: ClockState,
    /// Clock correction.
    pub clock_corr: Duration,
    /// Code (pseudo-range) observations.
    pub code: Vec<Observation>,
    /// Phase observations.
    pub phase: Vec<Observation>,
    /// Doppler observations.
    pub doppler: Vec<Observation>,
}

impl Candidate {
    /// All observations: code, then phase, then doppler.
    pub open spec fn observations(&self) -> Seq<Observation> {
        self.code@ + self.phase@ + self.doppler@
    }

    /// Creates a candidate; at least one code observation is needed.
    pub fn new(
        sv: SV,
        t: Epoch,
        clock_state: ClockState,
        clock_corr: Duration,
        tgd: Option<Duration>,
        code: Vec<Observation>,
        phase: Vec<Observation>,
        doppler: Vec<Observation>,
    ) -> (r: Result<Candidate, Error>)
        ensures
            code@.len() == 0 <==> r == Err::<Candidate, Error>(Error::NeedsAtLeastOnePseudoRange),
            code@.len() > 0 ==> r.is_ok(),
            r matches Ok(c) ==> c.sv == sv && c.t == t && c.t_tx == t && c.state.is_none()
                && c.tgd == tgd && c.clock_state == clock_state && c.clock_corr == clock_corr
                && c.code@ == code@ && c.phase@ == phase@ && c.doppler@ == doppler@,
    {
        if code.len() == 0 {
            Err(Error::NeedsAtLeastOnePseudoRange)
        } else {
            Ok(Candidate {
                sv,
                t,
                t_tx: t,
                state: None,
                tgd,
                clock_state,
                clock_corr,
                code,
                phase,
                doppler,
            })
        }
    }

    /// Best SNR over every observation, whatever the signal.
    pub fn best_snr(&self) -> (r: Option<i64>)
        ensures
            is_best_snr(self.observations(), r),
    {
        let a = best_snr_of(&self.code);
        let b = best_snr_of(&self.phase);
        let c = best_snr_of(&self.doppler);
        proof {
            lemma_best_snr_concat(self.code@, self.phase@, a, b);
            lemma_best_snr_concat(self.code@ + self.phase@, self.doppler@, max_snr(a, b), c);
        }
        let ab = match (a, b) {
            (None, _) => b,
            (_, None) => a,
            (Some(x), Some(y)) => if x >= y { a } else { b },
        };
        match (ab, c) {
            (None, _) => c,
            (_, None) => ab,
            (Some(x), Some(y)) => if x >= y { ab } else { c },
        }
    }

    /// One code observation, preferably the one of highest SNR.
    pub fn prefered_pseudorange(&self) -> (r: Option<Observation>)
        ensures
            self.code@.len() == 0 <==> r.is_none(),
            r.is_some() ==> exists|i: int| is_preferred_at(self.code@, i) && r == Some(self.code@[i]),
    {
        let n = self.code.len();
        if n == 0 {
            return None;
        }
        let ghost s = self.code@;
        let mut b: usize = 0;
        let mut i: usize = 1;
        while i < n
            invariant
                n == s.len(),
                s == self.code@,
                1 <= i <= n,
                b < i,
                s[b as int].snr.is_none() ==> b == 0 && forall|j: int| 0 <= j < i ==> (#[trigger] s[j]).snr.is_none(),
                s[b as int].snr.is_some() ==> forall|j: int|
                    0 <= j < i && (#[trigger] s[j]).snr.is_some() ==> s[j].snr.unwrap() <= s[b as int].snr.unwrap(),
                s[b as int].snr.is_some() ==> forall|j: int|
                    0 <= j < b && (#[trigger] s[j]).snr.is_some() ==> s[j].snr.unwrap() < s[b as int].snr.unwrap(),
            decreases n - i,
        {
            if let Some(s1) = self.code[i].snr {
                match self.code[b].snr {
                    None => {
                        b = i;
                    },
                    Some(s2) => {
                        if s1 > s2 {
                            b = i;
                        }
                    },
                }
            }
            i = i + 1;
        }
        proof {
            if !no_snr(s) {
                let k = choose|k: int| 0 <= k < s.len() && !(#[trigger] s[k]).snr.is_none();
                assert(s[k].snr.is_some());
            }
            assert(is_preferred_at(s, b as int));
        }
        Some(self.code[b])
    }
    /// Whether the code observations span at least two bands.
    pub fn dual_pseudorange(&self) -> (r: bool)
        ensures
            r == is_dual(self.code@),
    {
        dual_band(&self.code)
    }

    /// Whether the phase observations span at least two bands.
    pub fn dual_phase(&self) -> (r: bool)
        ensures
            r == is_dual(self.phase@),
    {
        dual_band(&self.phase)
    }

    /// Whether this candidate can take part in precise point positioning.
    pub fn ppp_compatible(&self) -> (r: bool)
        ensures
            r == is_dual(self.code@),
    {
        self.dual_pseudorange()
    }

    /// L1/Lx ionosphere-free pseudo-range combination, Lx being L2 when
    /// present, else L5.
    pub fn pseudorange_combination(&self) -> (r: Option<Observation>)
        ensures
            r == combination_of(self.code@),
    {
        let ghost s = self.code@;
        let mut l1: Option<usize> = None;
        let mut l2: Option<usize> = None;
        let mut l5: Option<usize> = None;
        let mut i: usize = 0;
        while i < self.code.len()
            invariant
                s == self.code@,
                i <= s.len(),
                l1 matches Some(k) ==> k as int == last_in_band(s.take(i as int), 1575),
                l1.is_none() ==> last_in_band(s.take(i as int), 1575) == -1,
                l2 matches Some(k) ==> k as int == last_in_band(s.take(i as int), 1227),
                l2.is_none() ==> last_in_band(s.take(i as int), 1227) == -1,
                l5 matches Some(k) ==> k as int == last_in_band(s.take(i as int), 1176),
                l5.is_none() ==> last_in_band(s.take(i as int), 1176) == -1,
            decreases s.len() - i,
        {
            assert(s.take(i + 1).drop_last() =~= s.take(i as int));
            assert(s.take(i + 1).last() == s[i as int]);
            let mhz = self.code[i].frequency / 1000000;
            if mhz == 1575 {
                l1 = Some(i);
            } else if mhz == 1227 {
                l2 = Some(i);
            } else if mhz == 1176 {
                l5 = Some(i);
            }
            i = i + 1;
        }
        assert(s.take(s.len() as int) =~= s);
        proof {
            lemma_last_in_band_range(s, 1575);
            lemma_last_in_band_range(s, 1227);
            lemma_last_in_band_range(s, 1176);
        }
        let k1 = match l1 {
            Some(k) => k,
            None => {
                return None;
            },
        };
        let (kx, fx) = match l2 {
            Some(k) => (k, L2_FREQ),
            None => match l5 {
                Some(k) => (k, L5_FREQ),
                None => {
                    return None;
                },
            },
        };
        let c1 = self.code[k1].value as i128;
        let cx = self.code[kx].value as i128;
        let beta: i128 = L1_FREQ * L1_FREQ;
        let gamma: i128 = fx * fx;
        assert(beta == 2481948176400000000);
        assert(gamma == 1507001760000000000 || gamma == 1384034602500000000);
        assert(-22891931407130464408296436531200000000 <= beta * c1 <= 22891931407130464408296436531200000000);
        if gamma == 1507001760000000000 {
            assert(-13899637892674932007061422080000000000 <= 1507001760000000000 * cx <= 13899637892674932007061422080000000000);
        } else {
            assert(gamma == 1384034602500000000);
            assert(-12765466050737914985651896320000000000 <= 1384034602500000000 * cx <= 12765466050737914985651896320000000000);
        }
        let num: i128 = beta * c1 - gamma * cx;
        let den: i128 = beta - gamma;
        proof {
            let q = num as int / den as int;
            vstd::arithmetic::div_mod::lemma_fundamental_div_mod(num as int, den as int);
            vstd::arithmetic::div_mod::lemma_mod_bound(num as int, den as int);
            let m = num as int % den as int;
            assert(i128::MIN <= q <= i128::MAX) by (nonlinear_arith)
                requires
                    num as int == den as int * q + m,
                    0 <= m < den,
                    den >= 1,
                    -36791569299805396415357858611200000000 <= num <= 36791569299805396415357858611200000000;
        }
        let v: i128 = num.checked_div_euclid(den).unwrap();
        assert(v == iono_free(c1 as int, cx as int, fx as int));
        if v < i64::MIN as i128 || v > i64::MAX as i128 {
            return None;
        }
        Some(Observation { frequency: self.code[k1].frequency, value: v as i64, snr: None })
    }

    /// Keeps only the observations, of every kind, whose SNR is present and at least `min_snr`.
    pub fn min_snr_mask(&mut self, min_snr: i64)
        ensures
            final(self).code@ == snr_masked(old(self).code@, min_snr),
            final(self).phase@ == snr_masked(old(self).phase@, min_snr),
            final(self).doppler@ == snr_masked(old(self).doppler@, min_snr),
            final(self).sv == old(self).sv,
            final(self).t == old(self).t,
            final(self).t_tx == old(self).t_tx,
            final(self).state == old(self).state,
            final(self).tgd == old(self).tgd,
            final(self).clock_state == old(self).clock_state,
            final(self).clock_corr == old(self).clock_corr,
    {
        self.code = mask_snr(&self.code, min_snr);
        self.phase = mask_snr(&self.phase, min_snr);
        self.doppler = mask_snr(&self.doppler, min_snr);
    }
    /// Propagation delay, in nanoseconds: time of flight of the preferred
    /// pseudo-range, plus the clock correction and the group delay where
    /// `cfg` applies them. None without a code observation.
    pub fn propagation_delay(&self, cfg: &Config) -> (r: Option<i128>)
        ensures
            self.code@.len() == 0 <==> r.is_none(),
            r matches Some(d) ==> d == propagation_nanos(*self, *cfg),
    {
        let pr = match self.prefered_pseudorange() {
            Some(o) => o,
            None => {
                return None;
            },
        };
        proof {
            let i = choose|i: int| is_preferred_at(self.code@, i) && Some(pr) == Some(self.code@[i]);
            lemma_preferred_unique(self.code@, i, preferred_index(self.code@));
        }
        let flight: i64 = pr.value.checked_div_euclid(SPEED_OF_LIGHT_NM_PER_NS).unwrap();
        let mut delay: i128 = flight as i128;
        if cfg.modeling.sv_clock_bias {
            delay = delay + self.clock_corr.nanos as i128;
        }
        if cfg.modeling.sv_total_group_delay {
            if let Some(tgd) = self.tgd {
                delay = delay + tgd.nanos as i128;
            }
        }
        Some(delay)
    }

    /// Whether this candidate has a code observation and a physically sound
    /// propagation delay under `cfg`.
    pub fn plausible(&self, cfg: &Config) -> (r: bool)
        ensures
            r == (self.code@.len() > 0 && plausible_delay(*self, *cfg)),
    {
        match self.propagation_delay(cfg) {
            None => false,
            Some(d) => 0 < d && d <= MAX_PROPAGATION_NANOS as i128 && self.t.nanos >= i128::MIN + d,
        }
    }

    /// Signal transmission epoch, and the propagation delay that separates
    /// it from the receive epoch. A delay that is not positive or exceeds
    /// 100 ms is nonsense that the caller rules out.
    pub fn transmission_time(&self, cfg: &Config) -> (r: Result<(Epoch, Duration), Error>)
        requires
            self.code@.len() > 0 ==> plausible_delay(*self, *cfg),
        ensures
            self.code@.len() == 0 <==> r == Err::<(Epoch, Duration), Error>(Error::MissingPseudoRange),
            self.code@.len() > 0 ==> r.is_ok(),
            r matches Ok((e, d)) ==> e.nanos == tx_nanos(*self, *cfg) && d.nanos == self.t.nanos - e.nanos
                && 0 < d.nanos <= MAX_PROPAGATION_NANOS,
    {
        let delay = match self.propagation_delay(cfg) {
            Some(d) => d,
            None => {
                return Err(Error::MissingPseudoRange);
            },
        };
        let e_tx = Epoch { nanos: self.t.nanos - delay };
        Ok((e_tx, Duration { nanos: delay as i64 }))
    }

    /// Forms this candidate's row of the navigation system: the measurement
    /// that `cfg` selects, less the modeled delays, plus the hardware delay
    /// compensations; with the data attached to its space vehicle.
    pub fn resolve(&self, cfg: &Config, biases: &BiasSources) -> (r: Result<NavigationRow, Error>)
        requires
            cfg.int_delay@.len() <= u32::MAX,
        ensures
            resolve_error(*self, *cfg) matches Some(e) ==> r == Err::<NavigationRow, Error>(e),
            resolve_error(*self, *cfg).is_none() ==> (r matches Ok(row) && is_row_of(row, *self, *biases, *cfg)),
    {
        let state = match self.state {
            Some(s) => s,
            None => {
                return Err(Error::UnresolvedState);
            },
        };
        let code = match cfg.method {
            Mode::SPP => match self.prefered_pseudorange() {
                Some(o) => o,
                None => {
                    return Err(Error::MissingPseudoRange);
                },
            },
            Mode::PPP => match self.pseudorange_combination() {
                Some(o) => o,
                None => {
                    return Err(Error::PseudoRangeCombination);
                },
            },
        };
        proof {
            if cfg.method == Mode::SPP {
                let i = choose|i: int| is_preferred_at(self.code@, i) && Some(code) == Some(self.code@[i]);
                lemma_preferred_unique(self.code@, i, preferred_index(self.code@));
            }
            lemma_light_bound(self.clock_corr);
        }
        let mut models: i128 = 0;
        if cfg.modeling.sv_clock_bias {
            models = models - self.clock_corr.nanos as i128 * SPEED_OF_LIGHT_NM_PER_NS as i128;
        }
        let mut tropo_bias = PVTBias::none();
        if cfg.modeling.tropo_delay {
            if biases.tropo_needs_modeling {
                models = models + biases.tropo_model as i128;
                tropo_bias = PVTBias::modeled(biases.tropo_model);
            } else if let Some(b) = biases.tropo_measured {
                models = models + b as i128;
                tropo_bias = PVTBias::measured(b);
            }
        }
        let mut iono_bias = PVTBias::none();
        if cfg.method == Mode::SPP && cfg.modeling.iono_delay {
            if let Some(b) = biases.iono {
                models = models + b as i128;
                iono_bias = PVTBias::modeled(b);
            }
        }
        let mut comp: i128 = 0;
        if let Some(d) = cfg.externalref_delay {
            proof {
                lemma_light_bound(d);
            }
            comp = comp - d.nanos as i128 * SPEED_OF_LIGHT_NM_PER_NS as i128;
        }
        let internal = sum_int_delays(&cfg.int_delay, code.frequency);
        comp = comp + internal;
        let observed: i128 = code.value as i128 - models + comp;
        let sv_data = PVTSVData {
            azimuth: state.azimuth,
            elevation: state.elevation,
            tropo_bias,
            iono_bias,
        };
        Ok(NavigationRow { sv: self.sv, sv_pos: state.sky_pos, code, observed, sv_data })
    }
}

} // verus!
