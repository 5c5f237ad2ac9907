use soundfarmer::oscillator::Oscillator;

#[test]
fn pitch_change_takes_effect_at_next_callback() {
    let mut osc = Oscillator::new(44100, 440, 64);
    osc.send_pitch(330);
    let out = osc.callback(140);
    assert_eq!(osc.frequency(), 330);
    // With the new increment 330 / 44100, the phase at sample i is
    // 330 * i mod 44100; the first half of the cycle (phase < 22050)
    // lasts through sample 66, so the wave sits high until then.
    assert_eq!(out[0], 192);
    assert_eq!(out[66], 192);
    assert_eq!(out[67], 64);
    // The cycle wraps at sample 134 (330 * 134 = 44220 = one cycle + 120).
    assert_eq!(out[133], 64);
    assert_eq!(out[134], 192);
}

#[test]
fn tone_alternates_around_midline() {
    let mut osc = Oscillator::new(8, 1, 100);
    let out = osc.callback(16);
    // Phase runs 0..8 per cycle; the first four samples of each cycle are
    // high (phase < 4), the next four low.
    assert_eq!(
        out,
        vec![228, 228, 228, 228, 28, 28, 28, 28, 228, 228, 228, 228, 28, 28, 28, 28]
    );
}

#[test]
fn resending_the_same_pitch_has_no_further_effect() {
    let mut once = Oscillator::new(44100, 440, 64);
    once.send_pitch(330);
    let a = once.callback(50);

    let mut twice = Oscillator::new(44100, 440, 64);
    twice.send_pitch(330);
    twice.send_pitch(330);
    let b = twice.callback(50);

    assert_eq!(a, b);
    assert_eq!(once.frequency(), twice.frequency());
}

#[test]
fn silent_oscillator_stays_on_midline() {
    let mut osc = Oscillator::new(44100, 440, 0);
    let out = osc.callback(8);
    assert_eq!(out, vec![128; 8]);
}
