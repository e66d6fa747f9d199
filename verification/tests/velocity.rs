use keyboard::gain::{velocity_conversion, GAIN_OFFSET, GAIN_SCALE};
use keyboard::ratio::Ratio;

fn as_float(velocity: u8) -> f64 {
    let gain = velocity_conversion(velocity);
    gain.num as f64 / gain.den as f64
}

#[test]
fn velocity_tests() {
    let volume_1 = 1;
    let volume_2 = 50;
    let volume_3 = 80;

    assert_eq!(as_float(volume_1), 0.17105263157894737);
    assert_eq!(as_float(volume_2), 0.4934210526315789);
    assert_eq!(as_float(volume_3), 0.6907894736842105);
}

#[test]
fn velocity_is_offset_then_scaled() {
    assert_eq!(GAIN_OFFSET, 25);
    assert_eq!(GAIN_SCALE, 152);
    assert_eq!(velocity_conversion(100), Ratio { num: 125, den: 152 });
    assert_eq!(velocity_conversion(255), Ratio { num: 280, den: 152 });
}

#[test]
fn silent_strike_has_positive_gain() {
    let gain = velocity_conversion(0);
    assert_eq!(gain, Ratio { num: 25, den: 152 });
    assert!(as_float(0) > 0.0);
}

#[test]
fn hardest_strike_has_gain_one() {
    let gain = velocity_conversion(127);
    assert_eq!(gain.num, gain.den);
    assert_eq!(as_float(127), 1.0);
}

#[test]
fn gain_never_falls_as_velocity_rises() {
    for velocity in 0..127u8 {
        let soft = velocity_conversion(velocity);
        let hard = velocity_conversion(velocity + 1);
        assert!(soft.num * hard.den < hard.num * soft.den);
        assert!(as_float(velocity) <= as_float(velocity + 1));
    }
}

#[test]
#[should_panic]
fn velocity_fail() {
    let volume_1 = 80;

    assert_eq!(as_float(volume_1), 0.907894736842105);
}
