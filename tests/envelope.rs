use patchwork::envelope::{ADSRState, ADSR, LEVEL_ONE};

const SUSTAIN: u64 = 58982;

// attack 0.1 s, decay 0.05 s, release 0.7 s at 48 kHz
fn reference() -> ADSR {
    ADSR::new(4800, 2400, SUSTAIN, 33600, 60)
}

#[test]
fn attack_reaches_full_level_on_its_last_sample() {
    let mut e = reference();
    for _ in 0..4799 {
        e.get();
    }
    assert_eq!(e.state(), ADSRState::Attacking);
    assert!(e.value() < LEVEL_ONE);
    e.get();
    assert_eq!(e.state(), ADSRState::Decaying);
    assert_eq!(e.value(), LEVEL_ONE);
}

#[test]
fn get_returns_level_before_step() {
    let mut e = ADSR::new(4, 2, 32768, 4, 1);
    assert_eq!(e.get(), 0);
    assert_eq!(e.get(), 16384);
    assert_eq!(e.get(), 32768);
    assert_eq!(e.get(), 49152);
    assert_eq!(e.state(), ADSRState::Decaying);
    assert_eq!(e.get(), 65536);
    assert_eq!(e.value(), 49152);
    assert_eq!(e.get(), 49152);
    assert_eq!(e.state(), ADSRState::Sustaining);
    assert_eq!(e.value(), 32768);
}

#[test]
fn release_from_sustain_reaches_zero() {
    let mut e = reference();
    for _ in 0..(4800 + 2400) {
        e.get();
    }
    assert_eq!(e.state(), ADSRState::Sustaining);
    assert_eq!(e.value(), SUSTAIN);
    for _ in 0..1000 {
        e.get();
    }
    assert_eq!(e.value(), SUSTAIN);
    e.note_off();
    assert_eq!(e.state(), ADSRState::Releasing);
    for _ in 0..33599 {
        e.get();
    }
    assert_eq!(e.state(), ADSRState::Releasing);
    assert!(e.value() > 0);
    e.get();
    assert_eq!(e.state(), ADSRState::Done);
    assert_eq!(e.value(), 0);
    assert!(e.is_done());
    assert_eq!(e.get(), 0);
    assert!(e.is_done());
}

#[test]
fn release_during_attack_falls_at_release_rate() {
    let mut e = ADSR::new(10, 10, 32768, 4, 5);
    for _ in 0..5 {
        e.get();
    }
    assert_eq!(e.value(), 32768);
    e.note_off();
    e.get();
    assert_eq!(e.value(), 24576);
    e.get();
    e.get();
    assert_eq!(e.value(), 8192);
    e.get();
    assert!(e.is_done());
}

#[test]
fn zero_durations_take_one_sample() {
    let mut e = ADSR::new(0, 0, 0, 0, 9);
    e.get();
    assert_eq!(e.state(), ADSRState::Decaying);
    e.get();
    assert_eq!(e.state(), ADSRState::Sustaining);
    assert_eq!(e.value(), 0);
    e.note_off();
    e.get();
    assert!(e.is_done());
}

#[test]
fn note_off_after_done_stays_done() {
    let mut e = ADSR::new(0, 0, 0, 0, 9);
    e.note_off();
    e.get();
    assert!(e.is_done());
    e.note_off();
    assert!(e.is_done());
    assert_eq!(e.note(), 9);
}
