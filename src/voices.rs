//! Polyphonic voice allocation: a fixed number of slots, each empty or
//! holding the envelope of one sounding note.

use vstd::prelude::*;
use crate::envelope::{ADSR, ADSRState, EnvelopeView, advance, release_of, valid};

verus! {

/// Number of voices of the synthesizer.
pub const VOICES: usize = 256;

/// The first empty slot, if any.
pub open spec fn first_free(slots: Seq<Option<EnvelopeView>>) -> Option<int> {
    if exists|i: int| 0 <= i < slots.len() && slots[i] is None {
        Some(
            choose|i: int|
                0 <= i < slots.len() && slots[i] is None && forall|j: int|
                    0 <= j < i ==> slots[j] is Some,
        )
    } else {
        None
    }
}

/// Number of taken slots.
pub open spec fn live_slots(slots: Seq<Option<EnvelopeView>>) -> nat
    decreases slots.len(),
{
    if slots.len() == 0 {
        0
    } else {
        live_slots(slots.drop_last()) + if slots.last() is Some {
            1nat
        } else {
            0nat
        }
    }
}

/// A note-off for `note`: every voice of that note is released.
pub open spec fn release_note(slots: Seq<Option<EnvelopeView>>, note: u8) -> Seq<
    Option<EnvelopeView>,
> {
    Seq::new(
        slots.len(),
        |i: int|
            match slots[i] {
                Some(v) => if v.note == note {
                    Some(release_of(v))
                } else {
                    Some(v)
                },
                None => None,
            },
    )
}

/// One voice after one sample: its envelope moves on, and a voice that
/// has finished leaves its slot.
pub open spec fn tick_slot(slot: Option<EnvelopeView>) -> Option<EnvelopeView> {
    match slot {
        Some(v) => if advance(v).stage == ADSRState::Done {
            None
        } else {
            Some(advance(v))
        },
        None => None,
    }
}

/// The pool after one sample.
pub open spec fn tick_slots(slots: Seq<Option<EnvelopeView>>) -> Seq<Option<EnvelopeView>> {
    Seq::new(slots.len(), |i: int| tick_slot(slots[i]))
}

/// Notes fill a pool in slot order: when the first `k` slots are taken and
/// the others empty, a note-on goes to slot `k`; once every slot is taken a
/// note-on finds no slot and is dropped.
pub proof fn lemma_pool_fills_in_order(slots: Seq<Option<EnvelopeView>>, k: int)
    requires
        0 <= k <= slots.len(),
        forall|j: int| 0 <= j < k ==> slots[j] is Some,
        forall|j: int| k <= j < slots.len() ==> slots[j] is None,
    ensures
        k < slots.len() ==> first_free(slots) == Some(k),
        k == slots.len() ==> first_free(slots) is None,
{
    if k < slots.len() {
        lemma_first_free_is(slots, k);
    }
}

/// In a full pool where one voice finishes on this sample and no other
/// does, the sample frees exactly that voice's slot, and the next note-on
/// takes it.
pub proof fn lemma_finished_voice_frees_one_slot(slots: Seq<Option<EnvelopeView>>, i: int)
    requires
        0 <= i < slots.len(),
        forall|j: int| 0 <= j < slots.len() ==> #[trigger] slots[j] is Some,
        advance(slots[i]->Some_0).stage == ADSRState::Done,
        forall|j: int|
            0 <= j < slots.len() && j != i ==> advance(#[trigger] slots[j]->Some_0).stage
                != ADSRState::Done,
    ensures
        tick_slots(slots)[i] is None,
        forall|j: int|
            0 <= j < slots.len() && j != i ==> #[trigger] tick_slots(slots)[j] is Some,
        first_free(tick_slots(slots)) == Some(i),
{
    let t = tick_slots(slots);
    assert forall|j: int| 0 <= j < i implies t[j] is Some by {
        assert(slots[j] is Some);
    }
    lemma_first_free_is(t, i);
}

/// A fixed-size pool of voices.
pub struct VoicePool {
    voices: Vec<Option<ADSR>>,
}

impl View for VoicePool {
    type V = Seq<Option<EnvelopeView>>;

    closed spec fn view(&self) -> Seq<Option<EnvelopeView>> {
        self.voices@.map_values(
            |s: Option<ADSR>|
                match s {
                    Some(e) => Some(e@),
                    None => None,
                },
        )
    }
}

proof fn lemma_first_free_is(slots: Seq<Option<EnvelopeView>>, i: int)
    requires
        0 <= i < slots.len(),
        slots[i] is None,
        forall|j: int| 0 <= j < i ==> slots[j] is Some,
    ensures
        first_free(slots) == Some(i),
{
    let c = choose|c: int|
        0 <= c < slots.len() && slots[c] is None && forall|j: int| 0 <= j < c ==> slots[j] is Some;
    assert(0 <= c < slots.len() && slots[c] is None && forall|j: int|
        0 <= j < c ==> slots[j] is Some);
    if c < i {
    } else if c > i {
        assert(slots[i] is Some);
    }
}

/// The view of one slot.
pub open spec fn slot_view(s: Option<ADSR>) -> Option<EnvelopeView> {
    match s {
        Some(e) => Some(e@),
        None => None,
    }
}

impl VoicePool {
    fn set_slot(&mut self, i: usize, s: Option<ADSR>)
        requires
            i < old(self)@.len(),
            old(self).wf(),
            s matches Some(e) ==> valid(e@),
        ensures
            final(self)@ == old(self)@.update(i as int, slot_view(s)),
            final(self).wf(),
    {
        self.voices.set(i, s);
        assert(self@ =~= old(self)@.update(i as int, slot_view(s)));
        assert forall|j: int| 0 <= j < self@.len() implies (#[trigger] self@[j] matches Some(v)
            ==> valid(v)) by {
            if j != i {
                assert(self@[j] == old(self)@[j]);
            }
        }
    }

    /// Every voice is a reachable envelope state.
    pub open spec fn wf(&self) -> bool {
        forall|i: int| 0 <= i < self@.len() ==> (#[trigger] self@[i] matches Some(v) ==> valid(v))
    }

    /// A pool of `capacity` empty slots.
    pub fn new(capacity: usize) -> (r: Self)
        ensures
            r.wf(),
            r@ == Seq::new(capacity as nat, |i: int| None::<EnvelopeView>),
    {
        let mut voices: Vec<Option<ADSR>> = Vec::new();
        let mut i: usize = 0;
        while i < capacity
            invariant
                i <= capacity,
                voices@.len() == i,
                forall|j: int| 0 <= j < i ==> voices@[j] is None,
            decreases capacity - i,
        {
            voices.push(None);
            i = i + 1;
        }
        let r = VoicePool { voices };
        assert(r@ =~= Seq::new(capacity as nat, |i: int| None::<EnvelopeView>));
        r
    }

    /// Number of slots.
    pub fn capacity(&self) -> (r: usize)
        ensures
            r == self@.len(),
    {
        self.voices.len()
    }

    /// The envelope in slot `i`, if the slot is taken.
    pub fn slot(&self, i: usize) -> (r: Option<ADSR>)
        requires
            i < self@.len(),
        ensures
            match r {
                Some(e) => self@[i as int] == Some(e@),
                None => self@[i as int] is None,
            },
    {
        self.voices[i]
    }

    /// Number of taken slots.
    pub fn live_count(&self) -> (r: usize)
        ensures
            r == live_slots(self@),
    {
        let mut n: usize = 0;
        let mut i: usize = 0;
        while i < self.voices.len()
            invariant
                i <= self@.len(),
                self@.len() == self.voices@.len(),
                n == live_slots(self@.take(i as int)),
                n <= i,
            decreases self@.len() - i,
        {
            proof {
                assert(self@.take(i + 1).drop_last() =~= self@.take(i as int));
                assert(self@[i as int] is Some <==> self.voices@[i as int] is Some);
            }
            if self.voices[i].is_some() {
                n = n + 1;
            }
            i = i + 1;
        }
        assert(self@.take(i as int) =~= self@);
        n
    }

    /// The taken slots, in increasing order.
    pub fn live_indices(&self) -> (r: Vec<usize>)
        ensures
            forall|k: int| 0 <= k < r@.len() ==> (r@[k] as int) < self@.len() && self@[r@[k] as int] is Some,
            forall|i: int| 0 <= i < self@.len() && self@[i] is Some ==> r@.contains(i as usize),
            forall|a: int, b: int| 0 <= a < b < r@.len() ==> r@[a] < r@[b],
    {
        let mut r: Vec<usize> = Vec::new();
        let mut i: usize = 0;
        while i < self.voices.len()
            invariant
                i <= self@.len(),
                self@.len() == self.voices@.len(),
                forall|k: int| 0 <= k < r@.len() ==> (r@[k] as int) < i && self@[r@[k] as int] is Some,
                forall|j: int| 0 <= j < i && self@[j] is Some ==> r@.contains(j as usize),
                forall|a: int, b: int| 0 <= a < b < r@.len() ==> r@[a] < r@[b],
            decreases self@.len() - i,
        {
            proof {
                assert(self@[i as int] is Some <==> self.voices@[i as int] is Some);
            }
            if self.voices[i].is_some() {
                let ghost prev = r@;
                r.push(i);
                proof {
                    assert forall|j: int| 0 <= j < i + 1 && self@[j] is Some implies r@.contains(
                        j as usize,
                    ) by {
                        if j < i {
                            let k = choose|k: int| 0 <= k < prev.len() && prev[k] == j as usize;
                            assert(r@[k] == j as usize);
                        } else {
                            assert(r@[prev.len() as int] == i);
                        }
                    }
                }
            }
            i = i + 1;
        }
        r
    }

    /// Starts a voice in the first empty slot and returns that slot. When
    /// every slot is taken the note is dropped: the pool is left as it was
    /// and the result is `None`.
    pub fn add_note(&mut self, envelope: ADSR) -> (r: Option<usize>)
        requires
            old(self).wf(),
            valid(envelope@),
        ensures
            final(self).wf(),
            r == match first_free(old(self)@) {
                Some(i) => Some(i as usize),
                None => None::<usize>,
            },
            match first_free(old(self)@) {
                Some(i) => final(self)@ == old(self)@.update(i, Some(envelope@)),
                None => final(self)@ == old(self)@,
            },
    {
        let mut i: usize = 0;
        while i < self.voices.len()
            invariant
                i <= self@.len(),
                self@.len() == self.voices@.len(),
                self == old(self),
                old(self).wf(),
                valid(envelope@),
                forall|j: int| 0 <= j < i ==> self@[j] is Some,
            decreases self@.len() - i,
        {
            if self.voices[i].is_none() {
                proof {
                    lemma_first_free_is(self@, i as int);
                }
                self.set_slot(i, Some(envelope));
                return Some(i);
            }
            i = i + 1;
        }
        None
    }

    /// Releases every voice playing `note`; their slots stay taken until
    /// they are done.
    pub fn remove_note(&mut self, note: u8)
        requires
            old(self).wf(),
        ensures
            final(self).wf(),
            final(self)@ == release_note(old(self)@, note),
    {
        let n = self.voices.len();
        let mut i: usize = 0;
        while i < n
            invariant
                i <= n,
                n == old(self)@.len(),
                self@.len() == n,
                self.voices@.len() == n,
                old(self).wf(),
                self.wf(),
                forall|j: int|
                    0 <= j < n ==> #[trigger] self@[j] == if j < i {
                        release_note(old(self)@, note)[j]
                    } else {
                        old(self)@[j]
                    },
            decreases n - i,
        {
            match self.voices[i] {
                Some(e) => {
                    assert(self@[i as int] == Some(e@));
                    if e.note() == note {
                        let mut e2 = e;
                        e2.note_off();
                        self.set_slot(i, Some(e2));
                        assert(self@[i as int] == release_note(old(self)@, note)[i as int]);
                    }
                },
                None => {},
            }
            i = i + 1;
        }
        assert(self@ =~= release_note(old(self)@, note));
    }

    /// One sample of the pool: returns, for every slot, the level of its
    /// voice before the step (`None` for an empty slot); then every voice
    /// steps, and those that have finished free their slots.
    pub fn tick(&mut self) -> (r: Vec<Option<u64>>)
        requires
            old(self).wf(),
        ensures
            final(self).wf(),
            final(self)@ == tick_slots(old(self)@),
            r@.len() == old(self)@.len(),
            forall|i: int|
                0 <= i < r@.len() ==> match old(self)@[i] {
                    Some(v) => #[trigger] r@[i] == Some(v.level as u64),
                    None => r@[i] is None,
                },
    {
        let n = self.voices.len();
        let mut levels: Vec<Option<u64>> = Vec::new();
        let mut i: usize = 0;
        while i < n
            invariant
                i <= n,
                n == old(self)@.len(),
                self@.len() == n,
                self.voices@.len() == n,
                old(self).wf(),
                self.wf(),
                levels@.len() == i,
                forall|j: int|
                    0 <= j < n ==> #[trigger] self@[j] == if j < i {
                        tick_slot(old(self)@[j])
                    } else {
                        old(self)@[j]
                    },
                forall|j: int|
                    0 <= j < i ==> match old(self)@[j] {
                        Some(v) => #[trigger] levels@[j] == Some(v.level as u64),
                        None => levels@[j] is None,
                    },
            decreases n - i,
        {
            match self.voices[i] {
                Some(e) => {
                    assert(self@[i as int] == Some(e@));
                    let mut e2 = e;
                    let level = e2.get();
                    levels.push(Some(level));
                    if e2.is_done() {
                        self.set_slot(i, None);
                    } else {
                        self.set_slot(i, Some(e2));
                    }
                },
                None => {
                    levels.push(None);
                },
            }
            i = i + 1;
        }
        assert(self@ =~= tick_slots(old(self)@));
        levels
    }
}

} // verus!
