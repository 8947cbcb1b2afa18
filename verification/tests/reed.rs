use openwurli_dsp::reed::{damper_ramp_ms, has_damper, jitter_update_due, renorm_due};
use openwurli_dsp::smoother::{RampClock, RampTick};

#[test]
fn jitter_and_renorm_schedule() {
    assert!(jitter_update_due(0));
    assert!(!jitter_update_due(15));
    assert!(jitter_update_due(16));
    assert!(jitter_update_due(1024));
    assert!(!renorm_due(0));
    assert!(!renorm_due(1023));
    assert!(renorm_due(1024));
    assert!(renorm_due(4096));
    assert!(!renorm_due(4112));
}

#[test]
fn damper_by_register() {
    assert!(has_damper(33));
    assert!(has_damper(91));
    assert!(!has_damper(92));
    assert!(!has_damper(96));
    assert_eq!(damper_ramp_ms(36), 50);
    assert_eq!(damper_ramp_ms(47), 50);
    assert_eq!(damper_ramp_ms(48), 25);
    assert_eq!(damper_ramp_ms(71), 25);
    assert_eq!(damper_ramp_ms(72), 8);
}

#[test]
fn ramp_clock_steps_then_arrives_once() {
    // 5 ms at 44.1 kHz
    let mut c = RampClock::new(220);
    assert_eq!(c.tick(), RampTick::Hold);
    assert!(c.start());
    for _ in 0..219 {
        assert_eq!(c.tick(), RampTick::Step);
    }
    assert_eq!(c.tick(), RampTick::Arrive);
    assert_eq!(c.tick(), RampTick::Hold);
    assert_eq!(c.samples_remaining(), 0);
}

#[test]
fn ramp_clock_zero_length_jumps() {
    let mut c = RampClock::new(0);
    assert!(!c.start());
    assert_eq!(c.tick(), RampTick::Hold);
}

#[test]
fn ramp_clock_restarts_in_flight_ramp() {
    let mut c = RampClock::new(220);
    assert!(!c.set_ramp_samples(240));
    assert_eq!(c.ramp_samples(), 240);
    c.start();
    c.tick();
    assert!(c.set_ramp_samples(100));
    assert_eq!(c.samples_remaining(), 100);
    c.stop();
    assert_eq!(c.tick(), RampTick::Hold);
}
