use patchwork::envelope::{ADSRState, ADSR};
use patchwork::voices::{VoicePool, VOICES};

fn short_note(note: u8) -> ADSR {
    ADSR::new(1, 1, 0, 1, note)
}

fn long_note(note: u8) -> ADSR {
    ADSR::new(1000, 1000, 30000, 1000, note)
}

#[test]
fn pool_fills_then_drops_overflow() {
    let mut pool = VoicePool::new(VOICES);
    for i in 0..VOICES {
        assert_eq!(pool.add_note(long_note((i % 128) as u8)), Some(i));
    }
    assert_eq!(pool.live_count(), 256);
    assert_eq!(pool.add_note(long_note(1)), None);
    assert_eq!(pool.live_count(), 256);
}

#[test]
fn finished_voice_frees_exactly_one_slot() {
    let mut pool = VoicePool::new(VOICES);
    for i in 0..VOICES {
        if i == 17 {
            pool.add_note(short_note(99));
        } else {
            pool.add_note(long_note(1));
        }
    }
    // the short note: attack, decay to zero sustain, then release
    pool.tick();
    pool.tick();
    pool.remove_note(99);
    assert_eq!(pool.live_count(), 256);
    pool.tick();
    assert_eq!(pool.live_count(), 255);
    assert!(pool.slot(17).is_none());
    assert_eq!(pool.add_note(long_note(2)), Some(17));
    assert_eq!(pool.add_note(long_note(3)), None);
}

#[test]
fn note_off_releases_every_matching_voice() {
    let mut pool = VoicePool::new(4);
    pool.add_note(long_note(60));
    pool.add_note(long_note(62));
    pool.add_note(long_note(60));
    pool.remove_note(60);
    assert_eq!(pool.slot(0).unwrap().state(), ADSRState::Releasing);
    assert_eq!(pool.slot(1).unwrap().state(), ADSRState::Attacking);
    assert_eq!(pool.slot(2).unwrap().state(), ADSRState::Releasing);
    assert!(pool.slot(3).is_none());
    assert_eq!(pool.capacity(), 4);
}

#[test]
fn tick_reports_levels_before_step() {
    let mut pool = VoicePool::new(3);
    pool.add_note(ADSR::new(2, 1, 0, 1, 1));
    let first = pool.tick();
    assert_eq!(first, vec![Some(0), None, None]);
    let second = pool.tick();
    assert_eq!(second, vec![Some(32768), None, None]);
}
