use multistream::oscillator::{
    ControlKind, ControlledOscillator, ControlledOscillatorBuilder, Nco, HALF_TURN,
};

#[test]
fn nco_step_accumulates_and_wraps() {
    let mut nco = Nco::new(0, 0x4000_0000);
    nco.step();
    assert_eq!(nco.phase, 0x4000_0000);
    nco.step();
    nco.step();
    assert_eq!(nco.phase, 0xC000_0000);
    nco.step();
    assert_eq!(nco.phase, 0); // wrapped a full turn
    nco.adjust_phase(HALF_TURN);
    assert_eq!(nco.phase, 0x8000_0000);
    nco.adjust_phase(HALF_TURN);
    assert_eq!(nco.phase, 0);
}

#[test]
fn rate_word_matches_frequency_ratio() {
    let mut nco = Nco::new(0, 0);
    // floor(440 * 2^32 / 1000)
    nco.set_frequency(440, 1000);
    assert_eq!(nco.angle_rate, 1_889_785_610);
    // floor(325 * 2^32 / 1000)
    nco.set_frequency(325, 1000);
    assert_eq!(nco.angle_rate, 1_395_864_371);
    // half the sample rate is half a turn per sample
    nco.set_frequency(500, 1000);
    assert_eq!(nco.angle_rate, HALF_TURN);
}

#[test]
fn freq_co_emits_phase_ramp_of_controlled_frequency() {
    let mut osc = ControlledOscillatorBuilder::freq_co(1000, 1).build();
    let input: Vec<u32> = vec![440, 440, 440, 440];
    let (out, consumed, finished) = osc.work(&input, 16, false);
    assert_eq!(consumed, 4);
    assert!(!finished);
    let rate: u32 = 1_889_785_610;
    let mut phase: u32 = 0;
    let mut expected: Vec<u32> = Vec::new();
    for _ in 0..4 {
        expected.push(phase);
        phase = phase.wrapping_add(rate);
    }
    assert_eq!(out, expected);
}

#[test]
fn vco_control_word_sets_angle_rate_directly() {
    let mut osc = ControlledOscillatorBuilder::vco(1000, 2).build();
    let (out, consumed, finished) = osc.work(&vec![5u32, 5], 16, true);
    assert_eq!(consumed, 2);
    assert!(finished);
    assert_eq!(out, vec![0, 10]);
    assert_eq!(osc.nco.angle_rate, 10);
}

#[test]
fn bpsk_flips_phase_on_symbol_change() {
    let mut osc = ControlledOscillatorBuilder::bpsk(1000, 0).build();
    let symbols: Vec<u32> = vec![1, 1, 0, 0, 1];
    let (out, consumed, _) = osc.work(&symbols, 16, false);
    assert_eq!(consumed, 5);
    // the first symbol flips from the idle carrier, then each change flips
    // again; a repeated symbol keeps the phase
    assert_eq!(out, vec![HALF_TURN, HALF_TURN, 0, 0, HALF_TURN]);
}

#[test]
fn work_consumes_min_of_input_and_capacity() {
    let mut osc = ControlledOscillatorBuilder::freq_co(1000, 1).build();
    let input: Vec<u32> = vec![100, 100, 100, 100, 100];
    let (out, consumed, finished) = osc.work(&input, 3, true);
    assert_eq!(consumed, 3);
    assert_eq!(out.len(), 3);
    // not everything available was retired, so the stage is not finished
    assert!(!finished);
    let (out2, consumed2, finished2) = osc.work(&vec![100u32, 100], 16, true);
    assert_eq!(consumed2, 2);
    assert_eq!(out2.len(), 2);
    assert!(finished2);
}

#[test]
fn builder_settings_reach_the_oscillator() {
    let osc = ControlledOscillatorBuilder::bpsk(48_000, 440).initial_phase(123).sample_rate(
        1000,
    ).build();
    assert_eq!(osc.kind, ControlKind::BPSK);
    assert_eq!(osc.sample_rate_hz, 1000);
    assert_eq!(osc.nco.phase, 123);
    assert_eq!(osc.nco.angle_rate, 1_889_785_610);
    assert_eq!(osc.sensitivity, None);

    let vco = ControlledOscillatorBuilder::vco(8000, 3).build();
    assert_eq!(vco.kind, ControlKind::VCO);
    assert_eq!(vco.sensitivity, Some(3));
    assert_eq!(vco.nco.phase, 0);
    assert_eq!(vco.nco.angle_rate, 0);
}

#[test]
fn oscillator_new_keeps_its_configuration() {
    let nco = Nco::new(7, 11);
    let osc = ControlledOscillator::new(ControlKind::VcoFreq, 1000, Some(2), nco);
    assert_eq!(osc.nco.phase, 7);
    assert_eq!(osc.nco.angle_rate, 11);
    assert_eq!(osc.kind, ControlKind::VcoFreq);
    assert_eq!(osc.sample_rate_hz, 1000);
    assert_eq!(osc.sensitivity, Some(2));
    assert_eq!(osc.previous, None);
}
