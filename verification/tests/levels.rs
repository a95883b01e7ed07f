use audiomirror::meter::{admits_level, LevelBits, LevelMeter, INFINITY_BITS};
use audiomirror::sink::{SinkControl, MAX_GAIN_BITS};

#[test]
fn the_meter_keeps_the_highest_level_of_the_window() {
    let meter = LevelMeter::new();
    assert_eq!(meter.raise(0.4f32.to_bits(), 0.2f32.to_bits()), (true, true));
    assert_eq!(meter.raise(0.05f32.to_bits(), 0.3f32.to_bits()), (true, true));
    let level = meter.take();
    assert_eq!(f32::from_bits(level.peak), 0.4);
    assert_eq!(f32::from_bits(level.rms), 0.3);
    assert_eq!(meter.take(), LevelBits::default());
}

#[test]
fn the_meter_refuses_what_is_not_a_level() {
    let meter = LevelMeter::new();
    assert_eq!(meter.raise(f32::NAN.to_bits(), f32::INFINITY.to_bits()), (false, false));
    assert_eq!(meter.raise(0.0f32.to_bits(), (-0.5f32).to_bits()), (false, false));
    assert_eq!(meter.take(), LevelBits { peak: 0, rms: 0 });
    assert!(!admits_level(INFINITY_BITS));
    assert!(admits_level(f32::MAX.to_bits()));
    assert!(admits_level(f32::MIN_POSITIVE.to_bits()));
}

#[test]
fn clearing_the_meter_forgets_the_window() {
    let meter = LevelMeter::new();
    meter.raise(0.9f32.to_bits(), 0.5f32.to_bits());
    meter.clear();
    assert_eq!(meter.take(), LevelBits::default());
}

#[test]
fn gain_is_bounded_and_non_finite_values_silence() {
    let control = SinkControl::new(1.0f32.to_bits());
    assert_eq!(f32::from_bits(control.gain()), 1.0);
    assert_eq!(f32::from_bits(control.set_gain(0.5f32.to_bits())), 0.5);
    assert_eq!(f32::from_bits(control.gain()), 0.5);
    assert_eq!(f32::from_bits(control.set_gain(20.0f32.to_bits())), 8.0);
    assert_eq!(control.set_gain(20.0f32.to_bits()), MAX_GAIN_BITS);
    assert_eq!(f32::from_bits(control.set_gain((-2.0f32).to_bits())), 0.0);
    assert_eq!(f32::from_bits(control.set_gain(f32::NAN.to_bits())), 0.0);
    assert_eq!(f32::from_bits(control.set_gain(f32::INFINITY.to_bits())), 0.0);
    assert_eq!(f32::from_bits(control.set_gain(f32::NEG_INFINITY.to_bits())), 0.0);
    assert_eq!(control.set_gain((-0.0f32).to_bits()), (-0.0f32).to_bits());
    assert_eq!(f32::from_bits(control.set_gain(8.0f32.to_bits())), 8.0);
    assert_eq!(f32::from_bits(control.gain()), 8.0);
}
