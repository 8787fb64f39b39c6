//! Decisions of the real-time loop. The loop itself, which talks to the
//! audio and MIDI devices, lives with the caller: it reports what it sees
//! and performs the action decided here.

use vstd::prelude::*;

verus! {

/// The state the audio sink reports after a write.
#[derive(Clone, Copy, Debug, PartialEq, Eq, Structural)]
pub enum PcmState {
    Running,
    Prepared,
    XRun,
    Suspended,
    Unknown,
}

/// What the sink is told to do to get running again.
#[derive(Clone, Copy, Debug, PartialEq, Eq, Structural)]
pub enum Recovery {
    Start,
    Prepare,
    Resume,
}

/// What the loop does next in one iteration, after it has written the
/// frames the sink had room for.
#[derive(Clone, Copy, Debug, PartialEq, Eq, Structural)]
pub enum LoopAction {
    /// Issue the recovery action and go round again at once.
    Recover(Recovery),
    /// Pull and dispatch one pending control event, then go round again.
    ReadMidi,
    /// Nothing to do: wait, with a bounded timeout, until a device is ready.
    Wait,
    /// The sink is in a state with no recovery: stop with a diagnostic.
    Fail,
}

/// A control event as the MIDI source delivers it.
#[derive(Clone, Copy, Debug, PartialEq, Eq, Structural)]
pub enum MidiEvent {
    NoteOn { note: u8, velocity: u8 },
    NoteOff { note: u8 },
    Controller { channel: u8, param: u32, value: i32 },
    Other,
}

/// What the voice manager is asked to do for an event.
#[derive(Clone, Copy, Debug, PartialEq, Eq, Structural)]
pub enum Command {
    AddNote { note: u8, velocity: u8 },
    RemoveNote { note: u8 },
    Control { channel: u8, param: u32, value: i32 },
    Ignore,
}

/// The recovery that each non-running sink state calls for.
pub open spec fn recovery_of(state: PcmState) -> Option<Recovery> {
    match state {
        PcmState::Prepared => Some(Recovery::Start),
        PcmState::XRun => Some(Recovery::Prepare),
        PcmState::Suspended => Some(Recovery::Resume),
        _ => None,
    }
}

/// Whether the loop should write frames now: only when the sink has room.
pub fn should_write(available: u64) -> (r: bool)
    ensures
        r == (available > 0),
{
    available > 0
}

/// Chooses the rest of one loop iteration. Audio comes first: a sink that
/// is not running is recovered before any control event is looked at; a
/// running sink lets a pending event through, and with none pending the
/// loop waits.
pub fn plan_iteration(state: PcmState, midi_pending: bool) -> (r: LoopAction)
    ensures
        state == PcmState::Running && midi_pending ==> r == LoopAction::ReadMidi,
        state == PcmState::Running && !midi_pending ==> r == LoopAction::Wait,
        state == PcmState::Unknown ==> r == LoopAction::Fail,
        recovery_of(state) matches Some(a) ==> r == LoopAction::Recover(a),
{
    match state {
        PcmState::Running => if midi_pending {
            LoopAction::ReadMidi
        } else {
            LoopAction::Wait
        },
        PcmState::Prepared => LoopAction::Recover(Recovery::Start),
        PcmState::XRun => LoopAction::Recover(Recovery::Prepare),
        PcmState::Suspended => LoopAction::Recover(Recovery::Resume),
        PcmState::Unknown => LoopAction::Fail,
    }
}

/// Turns a control event into a command: a note-on with velocity 0 is a
/// note-off; events of other kinds are ignored.
pub fn dispatch(event: MidiEvent) -> (r: Command)
    ensures
        r == match event {
            MidiEvent::NoteOn { note, velocity } => if velocity == 0 {
                Command::RemoveNote { note }
            } else {
                Command::AddNote { note, velocity }
            },
            MidiEvent::NoteOff { note } => Command::RemoveNote { note },
            MidiEvent::Controller { channel, param, value } => Command::Control {
                channel,
                param,
                value,
            },
            MidiEvent::Other => Command::Ignore,
        },
{
    match event {
        MidiEvent::NoteOn { note, velocity } => if velocity == 0 {
            Command::RemoveNote { note }
        } else {
            Command::AddNote { note, velocity }
        },
        MidiEvent::NoteOff { note } => Command::RemoveNote { note },
        MidiEvent::Controller { channel, param, value } => Command::Control {
            channel,
            param,
            value,
        },
        MidiEvent::Other => Command::Ignore,
    }
}

} // verus!
