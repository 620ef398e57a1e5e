//! Candidate pool election and filtering ahead of the navigation system.
use vstd::prelude::*;

use crate::candidate::{
    is_dual, is_row_of, plausible_with, resolve_error, snr_masked, tx_nanos, BiasSources,
    Candidate, NavigationRow, Observation,
};
use crate::cfg::{Config, InternalDelay, Mode};
use crate::candidate::SV;
use crate::time::Epoch;

verus! {

/// ECEF coordinates, in nanometers.
#[derive(Clone, Copy, Debug, PartialEq, Eq, Structural)]
pub struct Vector3D {
    pub x: i64,
    pub y: i64,
    pub z: i64,
}

/// What the state interpolator returns for one space vehicle.
#[derive(Clone, Copy, Debug, PartialEq, Eq)]
pub struct InterpolationResult {
    /// ECEF position.
    pub sky_pos: Vector3D,
    /// Elevation above the horizon, in thousandths of a degree.
    pub elevation: Option<i64>,
    /// Azimuth, in thousandths of a degree.
    pub azimuth: Option<i64>,
}

/// Solver errors.
#[derive(Clone, Copy, Debug, PartialEq, Eq)]
pub enum Error {
    /// Too few space vehicles left to solve this epoch.
    LessThan4SV(Epoch),
    /// The navigation system could not be solved at this epoch.
    SolvingError(Epoch),
    /// No a priori position to linearize around.
    UndefinedAprioriPosition,
    /// A candidate was built without any code observation.
    NeedsAtLeastOnePseudoRange,
    /// A candidate holds no code observation.
    MissingPseudoRange,
    /// A candidate holds no codes to form an ionosphere-free combination from.
    PseudoRangeCombination,
    /// A candidate's state was never interpolated.
    UnresolvedState,
    /// The normal matrix is singular.
    MatrixInversionError,
    /// The clock bias came out undefined.
    TimeIsNan,
}


/// Illumination of a space vehicle by the Sun.
#[derive(Clone, Copy, Debug, PartialEq, Eq, Structural)]
pub enum EclipseState {
    /// In the Earth's shadow.
    Umbra,
    /// In full sunlight.
    Visibilis,
    /// Partly lit, in millionths of full sunlight.
    Penumbra(u32),
}

/// A priori receiver position.
#[derive(Clone, Copy, Debug, PartialEq, Eq, Structural)]
pub struct AprioriPosition {
    /// ECEF coordinates.
    pub ecef: Vector3D,
    /// Latitude, in thousandths of a degree.
    pub latitude: i64,
    /// Longitude, in thousandths of a degree.
    pub longitude: i64,
    /// Altitude above sea level, in nanometers.
    pub altitude: i64,
}

/// `c` can take part in a solution of strategy `mode`.
pub open spec fn mode_compliant(c: Candidate, mode: Mode) -> bool {
    match mode {
        Mode::SPP => true,
        Mode::PPP => is_dual(c.code@),
    }
}

/// Candidates of `pool` that can take part in a solution of strategy `mode`, in order.
pub open spec fn elected(pool: Seq<Candidate>, mode: Mode) -> Seq<Candidate>
    decreases pool.len(),
{
    if pool.len() == 0 {
        pool
    } else {
        let r = elected(pool.drop_last(), mode);
        if mode_compliant(pool.last(), mode) {
            r.push(pool.last())
        } else {
            r
        }
    }
}

/// An interpolated state passes the elevation mask of `cfg`.
pub open spec fn above_mask(st: InterpolationResult, cfg: Config) -> bool {
    match cfg.min_sv_elev {
        None => true,
        Some(m) => st.elevation.is_some() && st.elevation.unwrap() >= m,
    }
}

/// An illumination passes the eclipse mask of `cfg`.
pub open spec fn sunlit(e: EclipseState, cfg: Config) -> bool {
    match cfg.min_sv_sunlight_rate {
        None => true,
        Some(m) => match e {
            EclipseState::Umbra => false,
            EclipseState::Visibilis => true,
            EclipseState::Penumbra(r) => r >= m,
        },
    }
}

/// Observations of `s` that pass the SNR mask of `cfg`, if it sets one.
pub open spec fn snr_filtered(s: Seq<Observation>, cfg: Config) -> Seq<Observation> {
    match cfg.min_snr {
        None => s,
        Some(m) => snr_masked(s, m),
    }
}

/// `a` is candidate `c`, its observations masked by the SNR mask of `cfg`,
/// given its transmission epoch and state.
pub open spec fn resolved_from(a: Candidate, c: Candidate, cfg: Config) -> bool {
    &&& a.sv == c.sv
    &&& a.t == c.t
    &&& a.tgd == c.tgd
    &&& a.clock_state == c.clock_state
    &&& a.clock_corr == c.clock_corr
    &&& a.code@ == snr_filtered(c.code@, cfg)
    &&& a.phase@ == snr_filtered(c.phase@, cfg)
    &&& a.doppler@ == snr_filtered(c.doppler@, cfg)
}

/// `a` and `b` hold the same configuration.
pub open spec fn same_config(a: Config, b: Config) -> bool {
    &&& a.method == b.method
    &&& a.sol_type == b.sol_type
    &&& a.interp_order == b.interp_order
    &&& a.modeling == b.modeling
    &&& a.min_sv_elev == b.min_sv_elev
    &&& a.min_sv_sunlight_rate == b.min_sv_sunlight_rate
    &&& a.min_snr == b.min_snr
    &&& a.max_sv == b.max_sv
    &&& a.arp_enu == b.arp_enu
    &&& a.externalref_delay == b.externalref_delay
    &&& a.int_delay@ == b.int_delay@
}

/// `c`, once masked by the SNR mask of `cfg`, has no code observation left
/// or a physically sound propagation delay.
pub open spec fn plausible_after_mask(c: Candidate, cfg: Config) -> bool {
    snr_filtered(c.code@, cfg).len() > 0 ==> plausible_with(snr_filtered(c.code@, cfg), c, cfg)
}

/// Position solver.
pub struct Solver<I> where I: Fn(Epoch, SV, usize) -> Option<InterpolationResult> {
    /// Configuration.
    pub cfg: Config,
    /// Positioning strategy.
    pub mode: Mode,
    /// A priori position.
    pub apriori: AprioriPosition,
    /// Space vehicle state interpolator: transmission epoch, space vehicle and order.
    pub interpolator: I,
}

/// Candidates of `pool` that can take part in a solution of strategy `mode`, in order.
fn elect_pool(pool: Vec<Candidate>, mode: Mode) -> (r: Vec<Candidate>)
    ensures
        r@ == elected(pool@, mode),
{
    let ghost orig = pool@;
    let mut pool = pool;
    let n: usize = pool.len();
    let mut out: Vec<Candidate> = Vec::new();
    let mut k: usize = 0;
    while pool.len() > 0
        invariant
            k <= orig.len(),
            orig.len() == n,
            k + pool@.len() == orig.len(),
            pool@ == orig.skip(k as int),
            out@ == elected(orig.take(k as int), mode),
        decreases pool.len(),
    {
        let c = pool.remove(0);
        assert(orig.take(k + 1).drop_last() =~= orig.take(k as int));
        assert(orig.take(k + 1).last() == orig[k as int]);
        assert(pool@ =~= orig.skip(k + 1));
        let compliant = match mode {
            Mode::SPP => true,
            Mode::PPP => c.ppp_compatible(),
        };
        if compliant {
            out.push(c);
        }
        k = k + 1;
    }
    assert(orig.take(orig.len() as int) =~= orig);
    out
}

/// Whether an illumination passes the eclipse mask of `cfg`.
pub fn is_sunlit(e: EclipseState, cfg: &Config) -> (r: bool)
    ensures
        r == sunlit(e, *cfg),
{
    match cfg.min_sv_sunlight_rate {
        None => true,
        Some(m) => match e {
            EclipseState::Umbra => false,
            EclipseState::Visibilis => true,
            EclipseState::Penumbra(r) => r >= m,
        },
    }
}

/// Whether an interpolated state passes the elevation mask of `cfg`.
pub fn is_above_mask(st: &InterpolationResult, cfg: &Config) -> (r: bool)
    ensures
        r == above_mask(*st, *cfg),
{
    match cfg.min_sv_elev {
        None => true,
        Some(m) => match st.elevation {
            None => false,
            Some(e) => e >= m,
        },
    }
}


/// A prepared candidate `c`, with illumination `light`, passes every filter of `cfg`.
pub open spec fn passes(c: Candidate, light: Option<EclipseState>, cfg: Config) -> bool {
    &&& c.code@.len() > 0
    &&& mode_compliant(c, cfg.method)
    &&& c.state.is_some()
    &&& above_mask(c.state.unwrap(), cfg)
    &&& cfg.min_sv_sunlight_rate.is_some() ==> (light.is_some() && sunlit(light.unwrap(), cfg))
}

/// Candidates of `cs` that pass every filter of `cfg`, in order; `lights[k]`
/// is the illumination of `cs[k]`.
pub open spec fn kept(cs: Seq<Candidate>, lights: Seq<Option<EclipseState>>, cfg: Config) -> Seq<Candidate>
    decreases cs.len(),
{
    if cs.len() == 0 {
        cs
    } else {
        let r = kept(cs.drop_last(), lights.take(cs.len() - 1), cfg);
        if passes(cs.last(), lights[cs.len() - 1], cfg) {
            r.push(cs.last())
        } else {
            r
        }
    }
}

/// `p` is elected candidate `e` prepared by a solver: its observations
/// masked by the SNR mask of `cfg`; and, where it still holds code and suits
/// the strategy, its transmission epoch resolved and its state what
/// `interpolator` returned for it; else no state.
pub open spec fn prepared_from<I>(p: Candidate, e: Candidate, cfg: Config, interpolator: I) -> bool where
    I: Fn(Epoch, SV, usize) -> Option<InterpolationResult>,
 {
    &&& resolved_from(p, e, cfg)
    &&& if p.code@.len() > 0 && mode_compliant(p, cfg.method) {
        &&& p.t_tx.nanos == tx_nanos(p, cfg)
        &&& interpolator.ensures((p.t_tx, p.sv, cfg.interp_order), p.state)
    } else {
        p.state.is_none()
    }
}

/// `light` is what `eclipse` returned for prepared candidate `p`, asked only
/// when `cfg` sets an eclipse mask and `p` passed the elevation mask.
pub open spec fn lit_from<E>(light: Option<EclipseState>, p: Candidate, cfg: Config, eclipse: E) -> bool where
    E: Fn(Vector3D, Epoch) -> EclipseState,
 {
    if cfg.min_sv_sunlight_rate.is_some() && p.state.is_some() && above_mask(p.state.unwrap(), cfg) {
        light.is_some() && eclipse.ensures((p.state.unwrap().sky_pos, p.t), light.unwrap())
    } else {
        light.is_none()
    }
}

/// `ps` and `lights` are the elected candidates `el` prepared by a solver,
/// one for one and in order, with their illuminations.
pub open spec fn prepared_pool<I, E>(
    ps: Seq<Candidate>,
    lights: Seq<Option<EclipseState>>,
    el: Seq<Candidate>,
    cfg: Config,
    interpolator: I,
    eclipse: E,
) -> bool where
    I: Fn(Epoch, SV, usize) -> Option<InterpolationResult>,
    E: Fn(Vector3D, Epoch) -> EclipseState,
 {
    &&& ps.len() == el.len()
    &&& lights.len() == el.len()
    &&& forall|j: int| 0 <= j < el.len() ==> prepared_from(#[trigger] ps[j], el[j], cfg, interpolator)
    &&& forall|j: int| 0 <= j < el.len() ==> lit_from(#[trigger] lights[j], ps[j], cfg, eclipse)
}

/// Outcome of admitting the prepared candidates `ps` at epoch `t`: the ones
/// that pass every filter, or `LessThan4SV(t)` when too few do.
pub open spec fn admission(
    r: Result<(Epoch, Vec<Candidate>), Error>,
    t: Epoch,
    ps: Seq<Candidate>,
    lights: Seq<Option<EclipseState>>,
    cfg: Config,
) -> bool {
    &&& r.is_err() <==> kept(ps, lights, cfg).len() < cfg.sol_type.min_sv_spec()
    &&& r matches Ok((e, v)) ==> e == t && v@ == kept(ps, lights, cfg)
    &&& r matches Err(x) ==> x == Error::LessThan4SV(t)
}

/// Keeps the prepared candidates `cs` that pass every filter of `cfg`, in
/// order; `lights[k]` is the illumination of `cs[k]`. Fails with
/// `LessThan4SV(t)` when fewer are kept than the solution kind needs.
pub fn admit_candidates(t: Epoch, cs: Vec<Candidate>, lights: Vec<Option<EclipseState>>, cfg: &Config) -> (r: Result<Vec<Candidate>, Error>)
    requires
        cs@.len() == lights@.len(),
    ensures
        r.is_err() <==> kept(cs@, lights@, *cfg).len() < cfg.sol_type.min_sv_spec(),
        r matches Ok(v) ==> v@ == kept(cs@, lights@, *cfg),
        r matches Err(x) ==> x == Error::LessThan4SV(t),
{
    let ghost orig = cs@;
    let ghost lo = lights@;
    let mut cs = cs;
    let n: usize = cs.len();
    let mut out: Vec<Candidate> = Vec::new();
    let mut k: usize = 0;
    while cs.len() > 0
        invariant
            orig.len() == n,
            lo.len() == n,
            lights@ == lo,
            k + cs@.len() == n,
            cs@ == orig.skip(k as int),
            out@ == kept(orig.take(k as int), lo.take(k as int), *cfg),
        decreases cs.len(),
    {
        let c = cs.remove(0);
        let light = lights[k];
        assert(orig.take(k + 1).drop_last() =~= orig.take(k as int));
        assert(orig.take(k + 1).last() == orig[k as int]);
        assert(lo.take(k + 1).take(k as int) =~= lo.take(k as int));
        assert(lo.take(k + 1)[k as int] == lo[k as int]);
        assert(cs@ =~= orig.skip(k + 1));
        let compliant = match cfg.method {
            Mode::SPP => true,
            Mode::PPP => c.ppp_compatible(),
        };
        let pass = c.code.len() > 0 && compliant && match c.state {
            None => false,
            Some(st) => is_above_mask(&st, cfg) && match cfg.min_sv_sunlight_rate {
                None => true,
                Some(_) => match light {
                    None => false,
                    Some(l) => is_sunlit(l, cfg),
                },
            },
        };
        if pass {
            out.push(c);
        }
        k = k + 1;
    }
    assert(orig.take(n as int) =~= orig);
    assert(lo.take(n as int) =~= lo);
    if out.len() < cfg.sol_type.min_sv() {
        return Err(Error::LessThan4SV(t));
    }
    Ok(out)
}

impl<I> Solver<I> where I: Fn(Epoch, SV, usize) -> Option<InterpolationResult> {
    /// Builds a solver.
    pub fn new(mode: Mode, apriori: AprioriPosition, cfg: &Config, interpolator: I) -> (r: Result<Self, Error>)
        ensures
            r matches Ok(s) ==> s.mode == mode && s.apriori == apriori && s.interpolator == interpolator
                && same_config(s.cfg, *cfg),
            r.is_ok(),
    {
        let cfg = Config {
            method: cfg.method,
            sol_type: cfg.sol_type,
            interp_order: cfg.interp_order,
            modeling: cfg.modeling,
            min_sv_elev: cfg.min_sv_elev,
            min_sv_sunlight_rate: cfg.min_sv_sunlight_rate,
            min_snr: cfg.min_snr,
            max_sv: cfg.max_sv,
            arp_enu: cfg.arp_enu,
            externalref_delay: cfg.externalref_delay,
            int_delay: copy_delays(&cfg.int_delay),
        };
        Ok(Solver { cfg, mode, apriori, interpolator })
    }

    /// Candidates of `pool` that can take part in a solution of strategy `mode`, in order.
    pub fn elect_candidates(t: Epoch, pool: Vec<Candidate>, mode: Mode, cfg: &Config) -> (r: Vec<Candidate>)
        ensures
            r@ == elected(pool@, mode),
    {
        elect_pool(pool, mode)
    }

    /// Elects the candidates of `pool`, applies the SNR mask, resolves their
    /// transmission epochs, interpolates their states, queries the eclipse
    /// service for those above the elevation mask, then keeps, in order,
    /// every candidate that passes all filters (`admit_candidates`). `eclipse` tells how
    /// a position is lit at an epoch.
    pub fn run<E>(&self, t: Epoch, pool: Vec<Candidate>, eclipse: &E) -> (r: Result<(Epoch, Vec<Candidate>), Error>) where
        E: Fn(Vector3D, Epoch) -> EclipseState,
        requires
            forall|i: int| 0 <= i < elected(pool@, self.cfg.method).len()
                ==> plausible_after_mask(#[trigger] elected(pool@, self.cfg.method)[i], self.cfg),
            forall|e: Epoch, sv: SV, o: usize| self.interpolator.requires((e, sv, o)),
            forall|p: Vector3D, e: Epoch| eclipse.requires((p, e)),
        ensures
            exists|ps: Seq<Candidate>, lights: Seq<Option<EclipseState>>|
                #[trigger] prepared_pool(ps, lights, elected(pool@, self.cfg.method), self.cfg, self.interpolator, *eclipse)
                && admission(r, t, ps, lights, self.cfg),
    {
        let mut pool = Self::elect_candidates(t, pool, self.cfg.method, &self.cfg);
        let ghost el = pool@;
        let n: usize = pool.len();
        let mut prepared: Vec<Candidate> = Vec::new();
        let mut lights: Vec<Option<EclipseState>> = Vec::new();
        let mut k: usize = 0;
        while pool.len() > 0
            invariant
                el.len() == n,
                k + pool@.len() == n,
                pool@ == el.skip(k as int),
                prepared@.len() == k,
                lights@.len() == k,
                forall|i: int| 0 <= i < el.len() ==> plausible_after_mask(#[trigger] el[i], self.cfg),
                forall|e: Epoch, sv: SV, o: usize| self.interpolator.requires((e, sv, o)),
                forall|p: Vector3D, e: Epoch| eclipse.requires((p, e)),
                forall|j: int| 0 <= j < k ==> prepared_from(#[trigger] prepared@[j], el[j], self.cfg, self.interpolator),
                forall|j: int| 0 <= j < k ==> lit_from(#[trigger] lights@[j], prepared@[j], self.cfg, *eclipse),
            decreases pool.len(),
        {
            let mut c = pool.remove(0);
            assert(pool@ =~= el.skip(k + 1));
            assert(c == el[k as int]);
            if let Some(m) = self.cfg.min_snr {
                c.min_snr_mask(m);
            }
            let compliant = match self.cfg.method {
                Mode::SPP => true,
                Mode::PPP => c.ppp_compatible(),
            };
            c.state = None;
            if c.code.len() > 0 && compliant {
                let (t_tx, _) = c.transmission_time(&self.cfg).unwrap();
                c.t_tx = t_tx;
                c.state = (self.interpolator)(t_tx, c.sv, self.cfg.interp_order);
            }
            let light = match c.state {
                Some(st) => {
                    if self.cfg.min_sv_sunlight_rate.is_some() && is_above_mask(&st, &self.cfg) {
                        Some(eclipse(st.sky_pos, c.t))
                    } else {
                        None
                    }
                },
                None => None,
            };
            assert(resolved_from(c, el[k as int], self.cfg));
            prepared.push(c);
            lights.push(light);
            k = k + 1;
        }
        let ghost ps = prepared@;
        let ghost ls = lights@;
        let r = match admit_candidates(t, prepared, lights, &self.cfg) {
            Ok(v) => Ok((t, v)),
            Err(e) => Err(e),
        };
        assert(prepared_pool(ps, ls, el, self.cfg, self.interpolator, *eclipse));
        r
    }

    /// Rows of the navigation system, one per candidate of `pool`, in order;
    /// `biases[k]` holds what the bias providers report for `pool[k]`.
    pub fn navigation(&self, pool: &Vec<Candidate>, biases: &Vec<BiasSources>) -> (r: Result<Vec<NavigationRow>, Error>)
        requires
            pool@.len() == biases@.len(),
            self.cfg.int_delay@.len() <= u32::MAX,
        ensures
            all_resolvable(pool@, self.cfg) <==> r.is_ok(),
            r matches Ok(rows) ==> rows@.len() == pool@.len() && forall|k: int|
                0 <= k < rows@.len() ==> is_row_of(#[trigger] rows@[k], pool@[k], biases@[k], self.cfg),
            r matches Err(e) ==> exists|k: int| 0 <= k < pool@.len() && resolve_error(#[trigger] pool@[k], self.cfg) == Some(e),
    {
        let mut rows: Vec<NavigationRow> = Vec::new();
        let mut k: usize = 0;
        while k < pool.len()
            invariant
                k <= pool@.len() == biases@.len(),
                self.cfg.int_delay@.len() <= u32::MAX,
                rows@.len() == k,
                forall|j: int| 0 <= j < k ==> resolve_error(#[trigger] pool@[j], self.cfg).is_none(),
                forall|j: int| 0 <= j < k ==> is_row_of(#[trigger] rows@[j], pool@[j], biases@[j], self.cfg),
            decreases pool.len() - k,
        {
            match pool[k].resolve(&self.cfg, &biases[k]) {
                Ok(row) => {
                    rows.push(row);
                },
                Err(e) => {
                    return Err(e);
                },
            }
            k = k + 1;
        }
        Ok(rows)
    }
}

/// Every candidate of `pool` can form a row under `cfg`.
pub open spec fn all_resolvable(pool: Seq<Candidate>, cfg: Config) -> bool {
    forall|k: int| 0 <= k < pool.len() ==> resolve_error(#[trigger] pool[k], cfg).is_none()
}

/// Navigation rows carry exactly the space vehicles of the candidates that
/// formed them, in the same order.
pub proof fn lemma_rows_carry_pool_svs(
    rows: Seq<NavigationRow>,
    pool: Seq<Candidate>,
    biases: Seq<BiasSources>,
    cfg: Config,
)
    requires
        rows.len() == pool.len(),
        pool.len() == biases.len(),
        forall|k: int| 0 <= k < rows.len() ==> is_row_of(#[trigger] rows[k], pool[k], biases[k], cfg),
    ensures
        rows.map_values(|r: NavigationRow| r.sv) == pool.map_values(|c: Candidate| c.sv),
{
    assert(rows.map_values(|r: NavigationRow| r.sv) =~= pool.map_values(|c: Candidate| c.sv));
}

/// A copy of the hardware delays `v`.
fn copy_delays(v: &Vec<InternalDelay>) -> (r: Vec<InternalDelay>)
    ensures
        r@ == v@,
{
    let mut out: Vec<InternalDelay> = Vec::new();
    let mut i: usize = 0;
    while i < v.len()
        invariant
            i <= v.len(),
            out@ == v@.take(i as int),
        decreases v.len() - i,
    {
        out.push(v[i]);
        i = i + 1;
        assert(out@ =~= v@.take(i as int));
    }
    assert(v@.take(v.len() as int) =~= v@);
    out
}

} // verus!
