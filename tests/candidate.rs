use gnss_pvt::candidate::{BiasSources, Candidate, ClockState, Constellation, Observation, SV};
use gnss_pvt::cfg::{Config, InternalDelay, Mode, Modeling};
use gnss_pvt::solutions::{PVTBias, PVTSolutionType};
use gnss_pvt::solver::{Error, InterpolationResult, Vector3D};
use gnss_pvt::time::{Duration, Epoch};

const L1: u64 = 1575420000;
const L2: u64 = 1227600000;
const L5: u64 = 1176450000;
const METER: i64 = 1_000_000_000;

fn sv(prn: u8) -> SV {
    SV { constellation: Constellation::GPS, prn }
}

fn clock() -> ClockState {
    ClockState { offset: 0, drift: 0, drift_rate: 0 }
}

fn obs(frequency: u64, value: i64, snr: Option<i64>) -> Observation {
    Observation { frequency, value, snr }
}

fn candidate(code: Vec<Observation>) -> Candidate {
    Candidate::new(
        sv(1),
        Epoch::from_nanoseconds(0),
        clock(),
        Duration::from_nanoseconds(0),
        None,
        code,
        vec![],
        vec![],
    )
    .unwrap()
}

fn config() -> Config {
    Config {
        method: Mode::SPP,
        sol_type: PVTSolutionType::PositionVelocityTime,
        interp_order: 11,
        modeling: Modeling {
            sv_clock_bias: true,
            sv_total_group_delay: true,
            tropo_delay: false,
            iono_delay: false,
            earth_rotation: false,
            relativistic_clock_corr: false,
        },
        min_sv_elev: None,
        min_sv_sunlight_rate: None,
        min_snr: None,
        max_sv: 10,
        arp_enu: None,
        externalref_delay: None,
        int_delay: vec![],
    }
}

#[test]
fn prefered_pseudorange() {
    let l1_freq = L1;
    let l2_freq = L5;
    let l5_freq = L5;
    let codes = vec![
        obs(l1_freq, 1 * METER, None),
        obs(l2_freq, 2 * METER, None),
        obs(l5_freq, 3 * METER, None),
    ];
    let cd = candidate(codes);
    assert_eq!(cd.prefered_pseudorange(), Some(obs(l1_freq, 1 * METER, None)));
}

#[test]
fn best_snr() {
    let l1_freq = L1;
    let l2_freq = L5;
    let l5_freq = L5;
    let codes = vec![
        obs(l1_freq, 1 * METER, None),
        obs(l2_freq, 2 * METER, None),
        obs(l5_freq, 3 * METER, Some(10_000)),
        obs(l2_freq, 4 * METER, Some(11_000)),
        obs(l2_freq, 5 * METER, Some(9_000)),
    ];
    let cd = candidate(codes);
    assert_eq!(cd.best_snr(), Some(11_000));

    let codes = vec![
        obs(l1_freq, 1 * METER, Some(1_000)),
        obs(l2_freq, 2 * METER, Some(1_100)),
        obs(l5_freq, 3 * METER, Some(1_200)),
    ];
    let cd = candidate(codes);
    assert_eq!(cd.best_snr(), Some(1_200));
}

#[test]
fn prefered_pseudorange_follows_snr() {
    let codes = vec![
        obs(L1, 1 * METER, None),
        obs(L5, 2 * METER, None),
        obs(L5, 3 * METER, Some(10_000)),
        obs(L2, 4 * METER, Some(11_000)),
        obs(L2, 5 * METER, Some(9_000)),
    ];
    let cd = candidate(codes);
    assert_eq!(cd.prefered_pseudorange(), Some(obs(L2, 4 * METER, Some(11_000))));
}

#[test]
fn prefered_pseudorange_first_of_equal_snr() {
    let codes = vec![obs(L1, 1, Some(5)), obs(L2, 2, Some(7)), obs(L5, 3, Some(7))];
    assert_eq!(candidate(codes).prefered_pseudorange(), Some(obs(L2, 2, Some(7))));
}

#[test]
fn best_snr_over_phase_and_doppler() {
    let cd = Candidate::new(
        sv(3),
        Epoch::from_nanoseconds(0),
        clock(),
        Duration::from_nanoseconds(0),
        None,
        vec![obs(L1, 1, None)],
        vec![obs(L1, 2, Some(30_000))],
        vec![obs(L1, 3, Some(40_000))],
    )
    .unwrap();
    assert_eq!(cd.best_snr(), Some(40_000));
    assert_eq!(candidate(vec![obs(L1, 1, None)]).best_snr(), None);
}

#[test]
fn new_needs_a_pseudo_range() {
    let r = Candidate::new(
        sv(1),
        Epoch::from_nanoseconds(0),
        clock(),
        Duration::from_nanoseconds(0),
        None,
        vec![],
        vec![obs(L1, 1, None)],
        vec![],
    );
    assert!(matches!(r, Err(Error::NeedsAtLeastOnePseudoRange)));
}

#[test]
fn dual_frequency_detection() {
    let single = candidate(vec![obs(L1, 1, None), obs(L1 + 400, 2, None)]);
    assert!(!single.dual_pseudorange());
    assert!(!single.ppp_compatible());
    let dual = candidate(vec![obs(L1, 1, None), obs(L2, 2, None)]);
    assert!(dual.dual_pseudorange());
    assert!(dual.ppp_compatible());
    assert!(!dual.dual_phase());
}

#[test]
fn ionosphere_free_combination() {
    let c1: i64 = 20_000_000 * METER;
    let c2: i64 = 20_000_005 * METER;
    let cd = candidate(vec![obs(L1, c1, Some(40_000)), obs(L2, c2, None)]);
    let r = cd.pseudorange_combination().unwrap();
    let f1 = 1575.42e6_f64;
    let f2 = 1227.60e6_f64;
    let alpha = 1.0 / (f1 * f1 - f2 * f2);
    let expected = alpha * (f1 * f1 * 20_000_000.0 - f2 * f2 * 20_000_005.0);
    let got = r.value as f64 / 1.0e9;
    assert!(((got - expected) / expected).abs() < 1.0e-6);
    assert_eq!(r.frequency, L1);
    assert_eq!(r.snr, None);
    // exact value, rounded down to the nanometer
    let num: i128 = (L1 as i128) * (L1 as i128) * (c1 as i128) - (L2 as i128) * (L2 as i128) * (c2 as i128);
    let den: i128 = (L1 as i128) * (L1 as i128) - (L2 as i128) * (L2 as i128);
    assert_eq!(r.value as i128, num.div_euclid(den));
}

#[test]
fn combination_falls_back_to_l5() {
    let v = 21_000_000 * METER;
    let cd = candidate(vec![obs(L5, v, None), obs(L1, v, None)]);
    assert_eq!(cd.pseudorange_combination(), Some(obs(L1, v, None)));
}

#[test]
fn combination_of_equal_codes() {
    let v = 22_123_456 * METER + 789;
    let cd = candidate(vec![obs(L1, v, None), obs(L2, v, None)]);
    assert_eq!(cd.pseudorange_combination().unwrap().value, v);
}

#[test]
fn combination_needs_two_carriers() {
    assert_eq!(candidate(vec![obs(L2, 1, None), obs(L5, 2, None)]).pseudorange_combination(), None);
    assert_eq!(candidate(vec![obs(L1, 1, None)]).pseudorange_combination(), None);
}

#[test]
fn snr_mask_drops_weak_and_unknown() {
    let mut cd = Candidate::new(
        sv(2),
        Epoch::from_nanoseconds(0),
        clock(),
        Duration::from_nanoseconds(0),
        None,
        vec![obs(L1, 1, Some(30_000)), obs(L2, 2, None), obs(L5, 3, Some(20_000))],
        vec![obs(L1, 4, Some(25_000))],
        vec![obs(L1, 5, Some(35_000))],
    )
    .unwrap();
    cd.min_snr_mask(25_000);
    assert_eq!(cd.code, vec![obs(L1, 1, Some(30_000))]);
    assert_eq!(cd.phase, vec![obs(L1, 4, Some(25_000))]);
    assert_eq!(cd.doppler, vec![obs(L1, 5, Some(35_000))]);
    let once = cd.code.clone();
    cd.min_snr_mask(25_000);
    assert_eq!(cd.code, once);
}

#[test]
fn transmission_time_subtracts_flight_clock_and_group_delay() {
    let t = Epoch::from_nanoseconds(1_000_000_000_000);
    let pr = 1_000_000 * METER;
    let cd = Candidate::new(
        sv(5),
        t,
        clock(),
        Duration::from_nanoseconds(1_000),
        Some(Duration::from_nanoseconds(10)),
        vec![obs(L1, pr, None)],
        vec![],
        vec![],
    )
    .unwrap();
    let flight = (pr / 299_792_458) as i128;
    assert_eq!(flight, 3_335_640);
    let (e, d) = cd.transmission_time(&config()).unwrap();
    assert_eq!(d.nanos as i128, flight + 1_000 + 10);
    assert_eq!(e.nanos, t.nanos - (flight + 1_010));
    let mut cfg = config();
    cfg.modeling.sv_clock_bias = false;
    cfg.modeling.sv_total_group_delay = false;
    let (e, d) = cd.transmission_time(&cfg).unwrap();
    assert_eq!(d.nanos as i128, flight);
    assert_eq!(e.nanos, t.nanos - flight);
}

fn resolved(code: Vec<Observation>) -> Candidate {
    let mut c = candidate(code);
    c.clock_corr = Duration::from_nanoseconds(2);
    c.state = Some(InterpolationResult {
        sky_pos: Vector3D { x: 1, y: 2, z: 3 },
        elevation: Some(45_000),
        azimuth: Some(90_000),
    });
    c
}

#[test]
fn resolve_folds_biases_and_delays() {
    let mut cfg = config();
    cfg.modeling.tropo_delay = true;
    cfg.modeling.iono_delay = true;
    cfg.externalref_delay = Some(Duration::from_nanoseconds(3));
    cfg.int_delay = vec![
        InternalDelay { frequency: L1, delay: Duration::from_nanoseconds(5) },
        InternalDelay { frequency: L2, delay: Duration::from_nanoseconds(7) },
    ];
    let biases = BiasSources {
        tropo_needs_modeling: true,
        tropo_model: 2_500_000_000,
        tropo_measured: Some(9),
        iono: Some(4_000_000_000),
    };
    let c = resolved(vec![obs(L1, 20_000_000 * METER, None)]);
    let row = c.resolve(&cfg, &biases).unwrap();
    let light: i128 = 299_792_458;
    let models: i128 = -2 * light + 2_500_000_000 + 4_000_000_000;
    let comp: i128 = -3 * light + 5 * light;
    assert_eq!(row.observed, 20_000_000 * METER as i128 - models + comp);
    assert_eq!(row.sv, sv(1));
    assert_eq!(row.sv_pos, Vector3D { x: 1, y: 2, z: 3 });
    assert_eq!(row.sv_data.tropo_bias, PVTBias::modeled(2_500_000_000));
    assert_eq!(row.sv_data.iono_bias, PVTBias::modeled(4_000_000_000));
    assert_eq!(row.sv_data.elevation, Some(45_000));

    let measured = BiasSources { tropo_needs_modeling: false, ..biases };
    let row = c.resolve(&cfg, &measured).unwrap();
    assert_eq!(row.sv_data.tropo_bias, PVTBias::measured(9));
    assert_eq!(row.sv_data.tropo_bias.value(), Some(9));
}

#[test]
fn resolve_errors() {
    let cfg = config();
    let biases = BiasSources { tropo_needs_modeling: false, tropo_model: 0, tropo_measured: None, iono: None };
    let c = candidate(vec![obs(L1, 1, None)]);
    assert_eq!(c.resolve(&cfg, &biases), Err(Error::UnresolvedState));
    let mut ppp = config();
    ppp.method = Mode::PPP;
    let c = resolved(vec![obs(L1, 1, None)]);
    assert_eq!(c.resolve(&ppp, &biases), Err(Error::PseudoRangeCombination));
    let mut empty = resolved(vec![obs(L1, 1, None)]);
    empty.code = vec![];
    assert_eq!(empty.resolve(&cfg, &biases), Err(Error::MissingPseudoRange));
    assert!(matches!(empty.transmission_time(&cfg), Err(Error::MissingPseudoRange)));
}
