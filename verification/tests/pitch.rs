use keyboard::envelope::SAMPLE_RATE;
use keyboard::pitch::{semitones_from_a4, A4_HERTZ, A4_KEY, SEMITONES_PER_OCTAVE};

fn note_to_frequency(hz_to_rads: f64, key: u8) -> f64 {
    let base: f64 = 2.00;
    hz_to_rads
        * A4_HERTZ as f64
        * base.powf(semitones_from_a4(key) as f64 / SEMITONES_PER_OCTAVE as f64)
}

#[test]
fn note_to_frequency_tests() {
    let _hz_to_rads = 2.00 * std::f64::consts::PI / SAMPLE_RATE as f64;
    let input_1 = 45;
    let input_2 = 69;
    let input_3 = 76;
    assert_eq!(note_to_frequency(_hz_to_rads, input_1), 0.014398966328953218);
    assert_eq!(note_to_frequency(_hz_to_rads, input_2), 0.05759586531581287);
    assert_eq!(note_to_frequency(_hz_to_rads, input_3), 0.08629629260151864);
}

#[test]
fn radian_vector_tests() {
    let _hz_to_rads = 2.00 * std::f64::consts::PI / SAMPLE_RATE as f64;
    let mut key_to_freq: Vec<f64> = Vec::new();
    for key in 0..=128 {
        key_to_freq.push(note_to_frequency(_hz_to_rads, key));
    }
    let index_1 = 39;
    let index_2 = 48;
    let index_3 = 99;

    assert_eq!(key_to_freq[index_1 as usize], 0.010181606733279589);
    assert_eq!(key_to_freq[index_2 as usize], 0.017123353207075778);
    assert_eq!(key_to_freq[index_3 as usize], 0.325811415464946845);
}

#[test]
fn tuning_is_equal_temperament_around_a4() {
    assert_eq!(A4_KEY, 69);
    assert_eq!(A4_HERTZ, 440);
    assert_eq!(SEMITONES_PER_OCTAVE, 12);
}

#[test]
fn semitones_count_from_a4() {
    assert_eq!(semitones_from_a4(69), 0);
    assert_eq!(semitones_from_a4(70), 1);
    assert_eq!(semitones_from_a4(81), 12);
    assert_eq!(semitones_from_a4(57), -12);
    assert_eq!(semitones_from_a4(0), -69);
    assert_eq!(semitones_from_a4(127), 58);
    assert_eq!(semitones_from_a4(255), 186);
}

#[test]
fn a4_has_the_reference_frequency() {
    let hz_to_rads = 2.00 * std::f64::consts::PI / SAMPLE_RATE as f64;
    assert_eq!(
        note_to_frequency(hz_to_rads, 69),
        2.0 * std::f64::consts::PI / 48000.0 * 440.0
    );
}

#[test]
fn an_octave_doubles_the_frequency() {
    let hz_to_rads = 2.00 * std::f64::consts::PI / SAMPLE_RATE as f64;
    for key in 0..=127u8 {
        assert_eq!(semitones_from_a4(key + 12), semitones_from_a4(key) + 12);
        let low = note_to_frequency(hz_to_rads, key);
        let high = note_to_frequency(hz_to_rads, key + 12);
        assert!((high - 2.0 * low).abs() <= 1e-12 * high);
    }
}

#[test]
#[should_panic]
fn note_to_frequency_fail() {
    let _hz_to_rads = 2.00 * std::f64::consts::PI / SAMPLE_RATE as f64;
    let input_1 = 76;
    assert_eq!(note_to_frequency(_hz_to_rads, input_1), 0.86296292601518640);
}

#[test]
#[should_panic]
fn radian_vector_fail() {
    let _hz_to_rads = 2.00 * std::f64::consts::PI / SAMPLE_RATE as f64;
    let mut key_to_freq: Vec<f64> = Vec::new();
    for key in 0..=128 {
        key_to_freq.push(note_to_frequency(_hz_to_rads, key));
    }
    let index_1 = 39;

    assert_eq!(key_to_freq[index_1 as usize], 0.10181606733279589);
}
