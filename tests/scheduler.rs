use patchwork::scheduler::{
    dispatch, plan_iteration, should_write, Command, LoopAction, MidiEvent, PcmState, Recovery,
};

#[test]
fn sink_states_map_to_recoveries() {
    assert_eq!(plan_iteration(PcmState::Prepared, true), LoopAction::Recover(Recovery::Start));
    assert_eq!(plan_iteration(PcmState::XRun, true), LoopAction::Recover(Recovery::Prepare));
    assert_eq!(plan_iteration(PcmState::Suspended, false), LoopAction::Recover(Recovery::Resume));
    assert_eq!(plan_iteration(PcmState::Unknown, false), LoopAction::Fail);
}

#[test]
fn running_sink_lets_events_through() {
    assert_eq!(plan_iteration(PcmState::Running, true), LoopAction::ReadMidi);
    assert_eq!(plan_iteration(PcmState::Running, false), LoopAction::Wait);
}

#[test]
fn write_only_with_room() {
    assert!(should_write(1));
    assert!(!should_write(0));
}

#[test]
fn note_on_with_zero_velocity_is_note_off() {
    assert_eq!(
        dispatch(MidiEvent::NoteOn { note: 60, velocity: 0 }),
        Command::RemoveNote { note: 60 }
    );
    assert_eq!(
        dispatch(MidiEvent::NoteOn { note: 60, velocity: 100 }),
        Command::AddNote { note: 60, velocity: 100 }
    );
    assert_eq!(dispatch(MidiEvent::NoteOff { note: 61 }), Command::RemoveNote { note: 61 });
    assert_eq!(
        dispatch(MidiEvent::Controller { channel: 1, param: 7, value: 127 }),
        Command::Control { channel: 1, param: 7, value: 127 }
    );
    assert_eq!(dispatch(MidiEvent::Other), Command::Ignore);
}
