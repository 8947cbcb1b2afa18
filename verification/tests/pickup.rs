use openwurli_dsp::pickup::{
    pickup_corner_millihertz, pickup_fc_millihertz, FC_REF_C2_EMITTER_MHZ, FC_REF_C2_GROUND_MHZ,
};

fn hz(mhz: u64) -> f64 {
    mhz as f64 / 1000.0
}

#[test]
fn test_corner_tracks_c_total_and_fork() {
    // The corner must follow C_TOTAL (an LCR measurement is expected to
    // replace it) and the C-2 return fork. Both are one-constant changes;
    // this pins the law.
    let pickup_fc = hz(pickup_fc_millihertz());
    assert!(
        (pickup_fc - 880.5).abs() < 1.0,
        "default (C_TOTAL 240 pF, C-2 to ground) must give ~880 Hz, got {pickup_fc:.1}"
    );
    // Scaling law: f = f_ref * (C_ref + C2) / (C_total + C2).
    // Cross-checked against the full network: 150 pF -> 1064 Hz,
    // 400 pF -> 670 Hz (fitted), law reproduces both within 4.3%.
    let law = |c_total_pf: u64| hz(pickup_corner_millihertz(c_total_pf, true));
    assert!((law(150) - 1064.0).abs() / 1064.0 < 0.05);
    assert!((law(400) - 670.0).abs() / 670.0 < 0.05);
    // The emitter-return fork sits ~1.6x higher — C-2 is bootstrapped away.
    let (ground_fc, emitter_fc) = (hz(FC_REF_C2_GROUND_MHZ), hz(FC_REF_C2_EMITTER_MHZ));
    assert!(
        emitter_fc > ground_fc * 1.5,
        "emitter-return fork should sit well above the ground fork: \
         {emitter_fc} vs {ground_fc}"
    );
}

#[test]
fn corner_law_exact_values() {
    assert_eq!(pickup_fc_millihertz(), 880_500);
    // 880500 * 460 / 370, 880500 * 460 / 620 (rounded down)
    assert_eq!(pickup_corner_millihertz(150, true), 1_094_675);
    assert_eq!(pickup_corner_millihertz(400, true), 653_274);
    assert_eq!(pickup_corner_millihertz(240, false), 1_436_000);
    assert!(pickup_corner_millihertz(500, true) < pickup_corner_millihertz(120, true));
}
