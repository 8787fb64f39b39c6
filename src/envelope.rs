//! The attack-decay-sustain-release envelope of a voice, as a state machine
//! over sample counts. Levels are fixed-point fractions of `LEVEL_ONE`;
//! durations are numbers of samples.
//!
//! Each stage moves the level along a straight line toward its target and
//! clamps it there on the sample where it is reached: attack climbs to full
//! level, decay falls to the sustain level, release falls toward zero at the
//! rate that would take the sustain level to zero in the release time.

use vstd::prelude::*;

verus! {

/// The full level, 1.0 in fixed point.
pub const LEVEL_ONE: u64 = 65536;

/// The longest stage duration accepted, in samples.
pub const MAX_STEPS: u64 = 0x100_0000_0000;

#[derive(Clone, Copy, Debug, PartialEq, Eq, Structural)]
pub enum ADSRState {
    Attacking,
    Decaying,
    Sustaining,
    Releasing,
    Done,
}

/// What an envelope is: its settings and where it stands.
pub struct EnvelopeView {
    pub attack: nat,
    pub decay: nat,
    pub sustain: nat,
    pub release: nat,
    pub note: u8,
    pub stage: ADSRState,
    /// The current level.
    pub level: nat,
    /// Samples spent in the current stage.
    pub elapsed: nat,
    /// The level at which release began.
    pub release_from: nat,
}

/// One sample of envelope time.
pub open spec fn advance(v: EnvelopeView) -> EnvelopeView {
    let k = v.elapsed + 1;
    match v.stage {
        ADSRState::Attacking => if k >= v.attack {
            EnvelopeView { stage: ADSRState::Decaying, level: LEVEL_ONE as nat, elapsed: 0, ..v }
        } else {
            EnvelopeView { level: (LEVEL_ONE * k / (v.attack as int)) as nat, elapsed: k, ..v }
        },
        ADSRState::Decaying => {
            // with a full sustain level there is nothing to fall, and decay
            // ends on its first sample
            let drop = (LEVEL_ONE - v.sustain) as nat;
            if drop * k >= drop * v.decay {
                EnvelopeView { stage: ADSRState::Sustaining, level: v.sustain, elapsed: 0, ..v }
            } else {
                EnvelopeView { level: (LEVEL_ONE - (drop * k) as int / (v.decay as int)) as nat, elapsed: k, ..v }
            }
        },
        // the fall per sample is sustain / release; with a zero sustain level
        // the level never falls, and release ends only if it is already zero
        ADSRState::Releasing => if v.sustain * k >= v.release_from * v.release {
            EnvelopeView { stage: ADSRState::Done, level: 0, elapsed: 0, ..v }
        } else if v.sustain == 0 {
            v
        } else {
            EnvelopeView {
                level: (v.release_from - (v.sustain * k) as int / (v.release as int)) as nat,
                elapsed: k,
                ..v
            }
        },
        _ => v,
    }
}

/// `n` samples of envelope time.
pub open spec fn advance_n(v: EnvelopeView, n: nat) -> EnvelopeView
    decreases n,
{
    if n == 0 {
        v
    } else {
        advance(advance_n(v, (n - 1) as nat))
    }
}

/// The effect of a note-off: any stage before release enters release from
/// the current level; release and done stay as they are.
pub open spec fn release_of(v: EnvelopeView) -> EnvelopeView {
    match v.stage {
        ADSRState::Releasing => v,
        ADSRState::Done => v,
        _ => EnvelopeView {
            stage: ADSRState::Releasing,
            elapsed: 0,
            release_from: v.level,
            ..v
        },
    }
}

/// The settings are in range and the position is one that the stages
/// reach.
pub open spec fn valid(v: EnvelopeView) -> bool {
    &&& v.sustain <= LEVEL_ONE
    &&& v.attack <= MAX_STEPS
    &&& v.decay <= MAX_STEPS
    &&& v.release <= MAX_STEPS
    &&& v.level <= LEVEL_ONE
    &&& v.release_from <= LEVEL_ONE
    &&& (v.stage == ADSRState::Attacking ==> v.elapsed == 0 || v.elapsed < v.attack)
    &&& (v.stage == ADSRState::Decaying ==> v.elapsed == 0 || v.elapsed < v.decay)
    &&& (v.stage == ADSRState::Releasing ==> {
        &&& v.level <= v.release_from
        &&& (v.elapsed == 0 || v.sustain * v.elapsed < v.release_from * v.release)
        &&& (v.sustain == 0 ==> v.elapsed == 0)
    })
    &&& (v.stage == ADSRState::Sustaining ==> v.level == v.sustain)
    &&& (v.stage == ADSRState::Done ==> v.level == 0)
    &&& (v.stage != ADSRState::Attacking && v.stage != ADSRState::Decaying
        && v.stage != ADSRState::Releasing ==> v.elapsed == 0)
}

/// The number of samples a stage of `steps` samples takes: a zero
/// duration still takes one sample.
pub open spec fn stage_samples(steps: nat) -> nat {
    if steps == 0 {
        1
    } else {
        steps
    }
}

proof fn lemma_attack_prefix(v: EnvelopeView, j: nat)
    requires
        v.stage == ADSRState::Attacking,
        v.elapsed == 0,
        1 <= j < v.attack,
    ensures
        advance_n(v, j) == (EnvelopeView {
            level: (LEVEL_ONE * j / (v.attack as int)) as nat,
            elapsed: j,
            ..v
        }),
    decreases j,
{
    if j > 1 {
        lemma_attack_prefix(v, (j - 1) as nat);
    } else {
        assert(advance_n(v, 0) == v);
    }
}

/// From the start of the attack the envelope climbs for exactly the attack
/// time (at least one sample): on that sample it stands at full level and
/// enters decay, and before it, it is still attacking.
pub proof fn lemma_attack_reaches_full(v: EnvelopeView)
    requires
        valid(v),
        v.stage == ADSRState::Attacking,
        v.elapsed == 0,
    ensures
        advance_n(v, stage_samples(v.attack)).stage == ADSRState::Decaying,
        advance_n(v, stage_samples(v.attack)).level == LEVEL_ONE,
        forall|j: nat|
            1 <= j < v.attack ==> #[trigger] advance_n(v, j).stage == ADSRState::Attacking,
{
    if v.attack <= 1 {
        assert(advance_n(v, 0) == v);
    } else {
        lemma_attack_prefix(v, (v.attack - 1) as nat);
    }
    assert forall|j: nat| 1 <= j < v.attack implies #[trigger] advance_n(v, j).stage
        == ADSRState::Attacking by {
        lemma_attack_prefix(v, j);
    }
}

proof fn lemma_done_stays(v: EnvelopeView, n: nat)
    requires
        v.stage == ADSRState::Done,
    ensures
        advance_n(v, n) == v,
    decreases n,
{
    if n > 0 {
        lemma_done_stays(v, (n - 1) as nat);
    }
}

proof fn lemma_release_prefix(v: EnvelopeView, j: nat)
    requires
        v.stage == ADSRState::Releasing,
        v.elapsed == 0,
        v.sustain > 0,
        v.release_from == v.sustain,
        1 <= j < v.release,
    ensures
        advance_n(v, j) == (EnvelopeView {
            level: (v.release_from - (v.sustain * j) as int / (v.release as int)) as nat,
            elapsed: j,
            ..v
        }),
    decreases j,
{
    assert(v.sustain * j < v.release_from * v.release) by (nonlinear_arith)
        requires j < v.release, v.sustain > 0, v.release_from == v.sustain;
    if j > 1 {
        lemma_release_prefix(v, (j - 1) as nat);
    } else {
        assert(advance_n(v, 0) == v);
    }
}

/// A note released while sustaining falls for exactly the release time (at
/// least one sample): it is then done, at level zero, and stays so.
pub proof fn lemma_release_reaches_zero(v: EnvelopeView, extra: nat)
    requires
        valid(v),
        v.stage == ADSRState::Sustaining,
    ensures
        advance_n(release_of(v), stage_samples(v.release) + extra).stage == ADSRState::Done,
        advance_n(release_of(v), stage_samples(v.release) + extra).level == 0,
{
    let r = release_of(v);
    let n = stage_samples(v.release);
    let m: nat = if v.sustain == 0 || v.release <= 1 {
        1
    } else {
        v.release
    };
    assert(r.release_from == v.sustain);
    if v.sustain == 0 {
        assert(advance_n(r, 0) == r);
        assert(r.release_from * r.release == 0) by (nonlinear_arith)
            requires r.release_from == 0;
        assert(advance_n(r, 1) == advance(r));
    } else if v.release <= 1 {
        assert(advance_n(r, 0) == r);
        assert(r.sustain * 1 >= r.release_from * r.release) by (nonlinear_arith)
            requires r.release <= 1, r.sustain == r.release_from;
        assert(advance_n(r, 1) == advance(r));
    } else {
        lemma_release_prefix(r, (v.release - 1) as nat);
        let prev = advance_n(r, (v.release - 1) as nat);
        assert(prev.elapsed + 1 == v.release);
        assert(advance_n(r, v.release) == advance(prev));
    }
    assert(advance_n(r, m).stage == ADSRState::Done);
    lemma_done_stays(advance_n(r, m), (n - m + extra) as nat);
    lemma_advance_n_add(r, m, (n - m + extra) as nat);
    assert(m + (n - m + extra) as nat == n + extra);
}

proof fn lemma_advance_n_add(v: EnvelopeView, a: nat, b: nat)
    ensures
        advance_n(v, a + b) == advance_n(advance_n(v, a), b),
    decreases b,
{
    if b > 0 {
        lemma_advance_n_add(v, a, (b - 1) as nat);
        assert((a + b - 1) as nat == a + (b - 1) as nat);
    } else {
        assert(a + b == a);
    }
}

/// An amplitude envelope for one note.
#[derive(Clone, Copy)]
pub struct ADSR {
    attack_steps: u64,
    decay_steps: u64,
    sustain: u64,
    release_steps: u64,
    state: ADSRState,
    value: u64,
    elapsed: u64,
    release_from: u64,
    note: u8,
}

impl View for ADSR {
    type V = EnvelopeView;

    closed spec fn view(&self) -> EnvelopeView {
        EnvelopeView {
            attack: self.attack_steps as nat,
            decay: self.decay_steps as nat,
            sustain: self.sustain as nat,
            release: self.release_steps as nat,
            note: self.note,
            stage: self.state,
            level: self.value as nat,
            elapsed: self.elapsed as nat,
            release_from: self.release_from as nat,
        }
    }
}

impl ADSR {
    /// An envelope at the start of its attack, level 0. `attack`, `decay`
    /// and `release` are stage durations in samples, `sustain` a level of
    /// at most `LEVEL_ONE`.
    pub fn new(attack: u64, decay: u64, sustain: u64, release: u64, note: u8) -> (r: Self)
        requires
            sustain <= LEVEL_ONE,
            attack <= MAX_STEPS,
            decay <= MAX_STEPS,
            release <= MAX_STEPS,
        ensures
            valid(r@),
            r@ == (EnvelopeView {
                attack: attack as nat,
                decay: decay as nat,
                sustain: sustain as nat,
                release: release as nat,
                note,
                stage: ADSRState::Attacking,
                level: 0,
                elapsed: 0,
                release_from: 0,
            }),
    {
        ADSR {
            attack_steps: attack,
            decay_steps: decay,
            sustain,
            release_steps: release,
            state: ADSRState::Attacking,
            value: 0,
            elapsed: 0,
            release_from: 0,
            note,
        }
    }

    /// Returns the current level, then moves the envelope on by one sample.
    pub fn get(&mut self) -> (r: u64)
        requires
            valid(old(self)@),
        ensures
            r as nat == old(self)@.level,
            final(self)@ == advance(old(self)@),
            valid(final(self)@),
    {
        let ret = self.value;
        let ghost v = self@;
        match self.state {
            ADSRState::Attacking => {
                let k: u64 = self.elapsed + 1;
                if k >= self.attack_steps {
                    self.value = LEVEL_ONE;
                    self.state = ADSRState::Decaying;
                    self.elapsed = 0;
                } else {
                    assert(k < v.attack);
                    assert((LEVEL_ONE as int) * (k as int) / (v.attack as int) <= LEVEL_ONE) by (nonlinear_arith)
                        requires k < v.attack;
                    self.value = LEVEL_ONE * k / self.attack_steps;
                    self.elapsed = k;
                }
            },
            ADSRState::Decaying => {
                let k: u64 = self.elapsed + 1;
                let drop: u64 = LEVEL_ONE - self.sustain;
                assert(drop as int * k as int <= 65536 * (MAX_STEPS + 1)) by (nonlinear_arith)
                    requires drop <= 65536, k <= MAX_STEPS + 1;
                assert(drop as int * v.decay as int <= 65536 * MAX_STEPS) by (nonlinear_arith)
                    requires drop <= 65536, v.decay <= MAX_STEPS;
                if drop as u128 * k as u128 >= drop as u128 * self.decay_steps as u128 {
                    self.value = self.sustain;
                    self.state = ADSRState::Sustaining;
                    self.elapsed = 0;
                } else {
                    assert(k < v.decay) by (nonlinear_arith)
                        requires drop * k < drop * v.decay;
                    assert((drop as int) * (k as int) / (v.decay as int) <= drop) by (nonlinear_arith)
                        requires k < v.decay, drop >= 0;
                    self.value = LEVEL_ONE - drop * k / self.decay_steps;
                    self.elapsed = k;
                }
            },
            ADSRState::Releasing => {
                assert(v.elapsed <= 65536 * MAX_STEPS) by (nonlinear_arith)
                    requires
                        v.elapsed == 0 || v.sustain * v.elapsed < v.release_from * v.release,
                        v.sustain == 0 ==> v.elapsed == 0,
                        v.release_from <= 65536,
                        v.release <= MAX_STEPS,
                ;
                let k: u64 = self.elapsed + 1;
                assert(v.sustain * k <= 65536 * (65536 * MAX_STEPS + 1)) by (nonlinear_arith)
                    requires v.sustain <= 65536, k <= 65536 * MAX_STEPS + 1;
                assert(v.release_from * v.release <= 65536 * MAX_STEPS) by (nonlinear_arith)
                    requires v.release_from <= 65536, v.release <= MAX_STEPS;
                if self.sustain as u128 * k as u128 >= self.release_from as u128
                    * self.release_steps as u128 {
                    self.value = 0;
                    self.state = ADSRState::Done;
                    self.elapsed = 0;
                } else if self.sustain == 0 {
                } else {
                    assert(v.release >= 1) by (nonlinear_arith)
                        requires v.sustain * k < v.release_from * v.release;
                    assert(k <= LEVEL_ONE * v.release) by (nonlinear_arith)
                        requires
                            v.sustain * k < v.release_from * v.release,
                            v.sustain >= 1,
                            v.release_from <= LEVEL_ONE,
                    ;
                    assert((v.sustain as int) * (k as int) / (v.release as int) < v.release_from) by (nonlinear_arith)
                        requires v.sustain * k < v.release_from * v.release, v.release >= 1;
                    let dropped: u128 = self.sustain as u128 * k as u128 / self.release_steps as u128;
                    self.value = self.release_from - dropped as u64;
                    self.elapsed = k;
                }
            },
            _ => {},
        }
        ret
    }

    /// Ends the note: the envelope enters release from its current level,
    /// unless it is already releasing or done.
    pub fn note_off(&mut self)
        requires
            valid(old(self)@),
        ensures
            final(self)@ == release_of(old(self)@),
            valid(final(self)@),
    {
        match self.state {
            ADSRState::Releasing => {},
            ADSRState::Done => {},
            _ => {
                self.state = ADSRState::Releasing;
                self.release_from = self.value;
                self.elapsed = 0;
            },
        }
    }

    /// Whether the envelope has finished its release.
    pub fn is_done(&self) -> (r: bool)
        ensures
            r == (self@.stage == ADSRState::Done),
    {
        match self.state {
            ADSRState::Done => true,
            _ => false,
        }
    }

    /// The note this envelope plays.
    pub fn note(&self) -> (r: u8)
        ensures
            r == self@.note,
    {
        self.note
    }

    /// The current stage.
    pub fn state(&self) -> (r: ADSRState)
        ensures
            r == self@.stage,
    {
        self.state
    }

    /// The current level.
    pub fn value(&self) -> (r: u64)
        ensures
            r as nat == self@.level,
    {
        self.value
    }
}

} // verus!
