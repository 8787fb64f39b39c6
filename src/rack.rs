//! The patch graph of a rack. Ports are dense indices: the first
//! `midi_inputs` are external control inputs, the rest are module outputs
//! in registration order. Each port fans out to any number of
//! `(module port, input slot)` destinations.
//!
//! Samples are carried as opaque 64-bit words (the bit pattern of the audio
//! value); the modules that compute them live with the caller. A port counts
//! as changed when its word differs, so two encodings of one value (such as
//! a positive and a negative zero) count as a change. One advance
//! of the rack takes every module's freshly computed output, commits each
//! port whose word changed and hands back, in port order, the input writes
//! that the change causes. Those writes reach the modules only after all of
//! this advance's outputs were taken, so a value travelling along any cable,
//! including one that loops back to its own module, arrives with exactly
//! one sample of delay. This lag is the intended semantics of the graph.

use vstd::prelude::*;

verus! {

/// One input write caused by a committed port change: `value` goes to input
/// `slot` of the module registered `module`-th (counting from 0).
#[derive(Clone, Copy, Debug, PartialEq, Eq, Structural)]
pub struct Delivery {
    pub module: usize,
    pub slot: usize,
    pub value: u64,
}

/// The writes that one port's fan-out makes when it carries `value`.
pub open spec fn fan_out(dests: Seq<(usize, usize)>, midi_inputs: usize, value: u64) -> Seq<
    Delivery,
> {
    dests.map_values(
        |d: (usize, usize)| Delivery { module: (d.0 - midi_inputs) as usize, slot: d.1, value },
    )
}

/// The writes made when ports `0..n` move from `committed` to `staged`:
/// port by port, every port whose word changed fans its new word out.
pub open spec fn propagation(
    patches: Seq<Seq<(usize, usize)>>,
    midi_inputs: usize,
    committed: Seq<u64>,
    staged: Seq<u64>,
    n: nat,
) -> Seq<Delivery>
    decreases n,
{
    if n == 0 {
        Seq::empty()
    } else {
        let p = n - 1;
        propagation(patches, midi_inputs, committed, staged, p as nat) + if staged[p]
            != committed[p] {
            fan_out(patches[p], midi_inputs, staged[p])
        } else {
            Seq::empty()
        }
    }
}

fn copy_dests(dests: &Vec<(usize, usize)>) -> (r: Vec<(usize, usize)>)
    ensures
        r@ == dests@,
{
    let mut r: Vec<(usize, usize)> = Vec::new();
    let mut k: usize = 0;
    while k < dests.len()
        invariant
            k <= dests@.len(),
            r@ == dests@.take(k as int),
        decreases dests@.len() - k,
    {
        r.push(dests[k]);
        k = k + 1;
        assert(r@ =~= dests@.take(k as int));
    }
    assert(dests@.take(k as int) =~= dests@);
    r
}

/// A rack's wiring and its two value buffers.
pub struct Rack {
    buffer: Vec<u64>,
    buffer_back: Vec<u64>,
    output: Option<usize>,
    patches: Vec<Vec<(usize, usize)>>,
    midi_inputs: usize,
    modules: usize,
}

impl Rack {
    /// The committed word of every port.
    pub closed spec fn committed(&self) -> Seq<u64> {
        self.buffer@
    }

    /// The staged word of every port.
    pub closed spec fn staged_words(&self) -> Seq<u64> {
        self.buffer_back@
    }

    /// The destinations of every port.
    pub closed spec fn patch_table(&self) -> Seq<Seq<(usize, usize)>> {
        self.patches@.map_values(|d: Vec<(usize, usize)>| d@)
    }

    pub closed spec fn control_count(&self) -> nat {
        self.midi_inputs as nat
    }

    pub closed spec fn module_count(&self) -> nat {
        self.modules as nat
    }

    pub closed spec fn output_port(&self) -> Option<usize> {
        self.output
    }

    /// Number of ports.
    pub open spec fn ports(&self) -> nat {
        self.control_count() + self.module_count()
    }

    /// The buffers and the patch table have one entry per port; every
    /// destination is a module port; a selected output is a port.
    pub open spec fn wf(&self) -> bool {
        &&& self.committed().len() == self.ports()
        &&& self.staged_words().len() == self.ports()
        &&& self.patch_table().len() == self.ports()
        &&& forall|p: int, k: int|
            0 <= p < self.ports() && 0 <= k < self.patch_table()[p].len() ==> {
                let d = #[trigger] self.patch_table()[p][k];
                self.control_count() <= d.0 < self.ports()
            }
        &&& self.output_port() matches Some(o) ==> o < self.ports()
        &&& self.ports() <= usize::MAX
    }

    /// The staged words once the module ports hold `outputs`.
    pub open spec fn staged_with(&self, outputs: Seq<u64>) -> Seq<u64> {
        Seq::new(
            self.ports(),
            |p: int|
                if p < self.control_count() {
                    self.staged_words()[p]
                } else {
                    outputs[p - self.control_count()]
                },
        )
    }

    /// The word at the selected output among `words`, or 0 when none is
    /// selected.
    pub open spec fn output_of(&self, words: Seq<u64>) -> u64 {
        match self.output_port() {
            Some(o) => words[o as int],
            None => 0,
        }
    }

    /// A rack with `midi_inputs` control ports, all zero, and no module.
    pub fn new(midi_inputs: usize) -> (r: Self)
        ensures
            r.wf(),
            r.control_count() == midi_inputs,
            r.module_count() == 0,
            r.committed() == Seq::new(midi_inputs as nat, |i: int| 0u64),
            r.staged_words() == Seq::new(midi_inputs as nat, |i: int| 0u64),
            r.patch_table() == Seq::new(midi_inputs as nat, |i: int| Seq::<(usize, usize)>::empty()),
            r.output_port() is None,
    {
        let mut buffer: Vec<u64> = Vec::new();
        let mut buffer_back: Vec<u64> = Vec::new();
        let mut patches: Vec<Vec<(usize, usize)>> = Vec::new();
        let mut i: usize = 0;
        while i < midi_inputs
            invariant
                i <= midi_inputs,
                buffer@ == Seq::new(i as nat, |j: int| 0u64),
                buffer_back@ == Seq::new(i as nat, |j: int| 0u64),
                patches@.len() == i,
                forall|j: int| 0 <= j < i ==> (#[trigger] patches@[j])@.len() == 0,
            decreases midi_inputs - i,
        {
            buffer.push(0);
            buffer_back.push(0);
            patches.push(Vec::new());
            i = i + 1;
            assert(buffer@ =~= Seq::new(i as nat, |j: int| 0u64));
            assert(buffer_back@ =~= Seq::new(i as nat, |j: int| 0u64));
        }
        let r = Rack { buffer, buffer_back, output: None, patches, midi_inputs, modules: 0 };
        assert forall|i: int| 0 <= i < midi_inputs implies r.patch_table()[i] =~= Seq::<
            (usize, usize),
        >::empty() by {}
        assert(r.patch_table() =~= Seq::new(
            midi_inputs as nat,
            |i: int| Seq::<(usize, usize)>::empty(),
        ));
        r
    }

    /// Number of control ports.
    pub fn midi_inputs(&self) -> (r: usize)
        ensures
            r == self.control_count(),
    {
        self.midi_inputs
    }

    /// Number of registered modules.
    pub fn module_len(&self) -> (r: usize)
        ensures
            r == self.module_count(),
    {
        self.modules
    }

    /// Number of ports.
    pub fn port_len(&self) -> (r: usize)
        requires
            self.wf(),
        ensures
            r == self.ports(),
    {
        self.buffer.len()
    }

    /// The committed word at `port`.
    pub fn value(&self, port: usize) -> (r: u64)
        requires
            self.wf(),
            port < self.ports(),
        ensures
            r == self.committed()[port as int],
    {
        self.buffer[port]
    }

    /// The destinations of `port`, in the order they were patched.
    pub fn destinations(&self, port: usize) -> (r: Vec<(usize, usize)>)
        requires
            self.wf(),
            port < self.ports(),
        ensures
            r@ == self.patch_table()[port as int],
    {
        copy_dests(&self.patches[port])
    }

    /// Registers one more module and returns its output port, which is the
    /// next free port id.
    pub fn register_module(&mut self) -> (r: usize)
        requires
            old(self).wf(),
            old(self).ports() < usize::MAX,
        ensures
            final(self).wf(),
            r == old(self).ports(),
            final(self).control_count() == old(self).control_count(),
            final(self).module_count() == old(self).module_count() + 1,
            final(self).committed() == old(self).committed().push(0),
            final(self).staged_words() == old(self).staged_words().push(0),
            final(self).patch_table() == old(self).patch_table().push(Seq::empty()),
            final(self).output_port() == old(self).output_port(),
    {
        let id = self.buffer.len();
        self.buffer.push(0);
        self.buffer_back.push(0);
        self.patches.push(Vec::new());
        self.modules = self.modules + 1;
        assert(self.patch_table() =~= old(self).patch_table().push(Seq::empty()));
        id
    }

    /// Adds a cable from port `output` to input slot `input.1` of the module
    /// whose port is `input.0`. A slot fed by several cables keeps whichever
    /// write came last.
    pub fn patch(&mut self, output: usize, input: (usize, usize))
        requires
            old(self).wf(),
            output < old(self).ports(),
            old(self).control_count() <= input.0 < old(self).ports(),
        ensures
            final(self).wf(),
            final(self).patch_table() == old(self).patch_table().update(
                output as int,
                old(self).patch_table()[output as int].push(input),
            ),
            final(self).committed() == old(self).committed(),
            final(self).staged_words() == old(self).staged_words(),
            final(self).control_count() == old(self).control_count(),
            final(self).module_count() == old(self).module_count(),
            final(self).output_port() == old(self).output_port(),
    {
        let mut dests = copy_dests(&self.patches[output]);
        dests.push(input);
        self.patches.set(output, dests);
        assert(self.patch_table() =~= old(self).patch_table().update(
            output as int,
            old(self).patch_table()[output as int].push(input),
        ));
        assert forall|p: int, k: int|
            0 <= p < self.ports() && 0 <= k < self.patch_table()[p].len() implies {
                let d = #[trigger] self.patch_table()[p][k];
                self.control_count() <= d.0 < self.ports()
            } by {
            if p != output as int || k < old(self).patch_table()[p].len() {
                assert(self.patch_table()[p][k] == old(self).patch_table()[p][k]);
            }
        }
    }

    /// Selects the port whose committed word the rack reports.
    pub fn set_output(&mut self, i: usize)
        requires
            old(self).wf(),
            i < old(self).ports(),
        ensures
            final(self).wf(),
            final(self).output_port() == Some(i),
            final(self).committed() == old(self).committed(),
            final(self).staged_words() == old(self).staged_words(),
            final(self).patch_table() == old(self).patch_table(),
            final(self).control_count() == old(self).control_count(),
            final(self).module_count() == old(self).module_count(),
    {
        self.output = Some(i);
    }

    /// Overwrites the committed word of port `i` without fanning it out.
    pub fn fix_input(&mut self, i: usize, val: u64)
        requires
            old(self).wf(),
            i < old(self).ports(),
        ensures
            final(self).wf(),
            final(self).committed() == old(self).committed().update(i as int, val),
            final(self).staged_words() == old(self).staged_words(),
            final(self).patch_table() == old(self).patch_table(),
            final(self).control_count() == old(self).control_count(),
            final(self).module_count() == old(self).module_count(),
            final(self).output_port() == old(self).output_port(),
    {
        self.buffer.set(i, val);
    }

    fn fan_out_into(&self, port: usize, value: u64, deliveries: &mut Vec<Delivery>)
        requires
            self.wf(),
            port < self.ports(),
        ensures
            final(deliveries)@ == old(deliveries)@ + fan_out(
                self.patch_table()[port as int],
                self.midi_inputs,
                value,
            ),
    {
        let ghost start = deliveries@;
        let ghost dests = self.patch_table()[port as int];
        let n = self.patches[port].len();
        let mut k: usize = 0;
        while k < n
            invariant
                self.wf(),
                port < self.ports(),
                dests == self.patch_table()[port as int],
                n == dests.len(),
                k <= n,
                deliveries@ == start + fan_out(dests, self.midi_inputs, value).take(k as int),
            decreases n - k,
        {
            let (m, s) = self.patches[port][k];
            assert(self.patch_table()[port as int][k as int] == (m, s));
            deliveries.push(Delivery { module: m - self.midi_inputs, slot: s, value });
            k = k + 1;
            assert(fan_out(dests, self.midi_inputs, value).take(k as int) =~= fan_out(
                dests,
                self.midi_inputs,
                value,
            ).take(k - 1).push(Delivery { module: (m - self.midi_inputs) as usize, slot: s, value }));
        }
        assert(fan_out(dests, self.midi_inputs, value).take(n as int) =~= fan_out(
            dests,
            self.midi_inputs,
            value,
        ));
    }

    /// Sets control port `param` to `val` (both buffers) and returns at once
    /// the writes of its fan-out, so that a controller move is not delayed
    /// by a sample. A `param` that is not a control port is ignored.
    pub fn process_control(&mut self, param: u32, val: u64) -> (r: Vec<Delivery>)
        requires
            old(self).wf(),
        ensures
            final(self).wf(),
            final(self).patch_table() == old(self).patch_table(),
            final(self).control_count() == old(self).control_count(),
            final(self).module_count() == old(self).module_count(),
            final(self).output_port() == old(self).output_port(),
            (param as int) < old(self).control_count() ==> {
                &&& final(self).committed() == old(self).committed().update(param as int, val)
                &&& final(self).staged_words() == old(self).staged_words().update(param as int, val)
                &&& r@ == fan_out(old(self).patch_table()[param as int], old(self).control_count() as usize, val)
            },
            (param as int) >= old(self).control_count() ==> {
                &&& final(self).committed() == old(self).committed()
                &&& final(self).staged_words() == old(self).staged_words()
                &&& r@.len() == 0
            },
    {
        let mut deliveries: Vec<Delivery> = Vec::new();
        if (param as u64) < (self.midi_inputs as u64) {
            let p = param as usize;
            self.buffer.set(p, val);
            self.buffer_back.set(p, val);
            self.fan_out_into(p, val, &mut deliveries);
            assert(deliveries@ =~= fan_out(old(self).patch_table()[param as int], old(self).control_count() as usize, val));
        }
        deliveries
    }

    /// Advances the rack by one sample. `outputs[i]` is what the `i`-th
    /// module produced for this sample; it is staged at that module's port.
    /// Then every port, in port order, whose staged word differs from its
    /// committed one is committed and fanned out. Returns the writes, in
    /// order, and the committed word at the selected output (0 if none).
    pub fn get(&mut self, outputs: &Vec<u64>) -> (r: (Vec<Delivery>, u64))
        requires
            old(self).wf(),
            outputs@.len() == old(self).module_count(),
        ensures
            final(self).wf(),
            final(self).staged_words() == old(self).staged_with(outputs@),
            final(self).committed() == old(self).staged_with(outputs@),
            r.0@ == propagation(
                old(self).patch_table(),
                old(self).control_count() as usize,
                old(self).committed(),
                old(self).staged_with(outputs@),
                old(self).ports(),
            ),
            r.1 == old(self).output_of(old(self).staged_with(outputs@)),
            final(self).patch_table() == old(self).patch_table(),
            final(self).control_count() == old(self).control_count(),
            final(self).module_count() == old(self).module_count(),
            final(self).output_port() == old(self).output_port(),
    {
        let ghost staged = old(self).staged_with(outputs@);
        let offset = self.midi_inputs;
        let mut i: usize = 0;
        while i < self.modules
            invariant
                self.wf(),
                self.patch_table() == old(self).patch_table(),
                self.committed() == old(self).committed(),
                self.control_count() == old(self).control_count(),
                self.module_count() == old(self).module_count(),
                self.output_port() == old(self).output_port(),
                offset == self.midi_inputs,
                outputs@.len() == self.module_count(),
                staged.len() == self.ports(),
                staged == old(self).staged_with(outputs@),
                old(self).wf(),
                i <= self.modules,
                forall|p: int|
                    0 <= p < self.ports() ==> #[trigger] self.staged_words()[p] == if p < offset
                        + i {
                        staged[p]
                    } else {
                        old(self).staged_words()[p]
                    },
            decreases self.modules - i,
        {
            self.buffer_back.set(i + offset, outputs[i]);
            proof {
                assert(staged[offset + i] == outputs@[i as int]);
            }
            i = i + 1;
            assert forall|p: int| 0 <= p < self.ports() implies #[trigger] self.staged_words()[p]
                == if p < offset + i {
                staged[p]
            } else {
                old(self).staged_words()[p]
            } by {
                if p < offset {
                    assert(staged[p] == old(self).staged_words()[p]);
                }
            }
        }
        assert(self.staged_words() =~= staged);
        let mut deliveries: Vec<Delivery> = Vec::new();
        let n = self.buffer.len();
        let mut p: usize = 0;
        while p < n
            invariant
                self.wf(),
                self.patch_table() == old(self).patch_table(),
                self.staged_words() == staged,
                self.control_count() == old(self).control_count(),
                self.module_count() == old(self).module_count(),
                self.output_port() == old(self).output_port(),
                offset == self.midi_inputs,
                n == self.ports(),
                p <= n,
                forall|q: int|
                    0 <= q < n ==> #[trigger] self.committed()[q] == if q < p {
                        staged[q]
                    } else {
                        old(self).committed()[q]
                    },
                deliveries@ == propagation(
                    old(self).patch_table(),
                    offset,
                    old(self).committed(),
                    staged,
                    p as nat,
                ),
            decreases n - p,
        {
            let val = self.buffer_back[p];
            if val != self.buffer[p] {
                self.buffer.set(p, val);
                self.fan_out_into(p, val, &mut deliveries);
            }
            p = p + 1;
        }
        assert(self.committed() =~= staged);
        let out = match self.output {
            Some(o) => self.buffer[o],
            None => 0,
        };
        (deliveries, out)
    }
}


/// The word that input `slot` of the `module`-th module holds after the
/// writes `ds` are applied in order, starting from `init`.
pub open spec fn last_write(ds: Seq<Delivery>, module: usize, slot: usize, init: u64) -> u64
    decreases ds.len(),
{
    if ds.len() == 0 {
        init
    } else if ds.last().module == module && ds.last().slot == slot {
        ds.last().value
    } else {
        last_write(ds.drop_last(), module, slot, init)
    }
}

proof fn lemma_last_write_concat(a: Seq<Delivery>, b: Seq<Delivery>, m: usize, s: usize, init: u64)
    ensures
        last_write(a + b, m, s, init) == last_write(b, m, s, last_write(a, m, s, init)),
    decreases b.len(),
{
    if b.len() > 0 {
        assert((a + b).drop_last() =~= a + b.drop_last());
        assert((a + b).last() == b.last());
        lemma_last_write_concat(a, b.drop_last(), m, s, init);
    } else {
        assert(a + b =~= a);
    }
}

proof fn lemma_fan_out_last_write(
    dests: Seq<(usize, usize)>,
    midi: usize,
    v: u64,
    m: usize,
    s: usize,
    init: u64,
)
    requires
        forall|k: int| 0 <= k < dests.len() ==> midi <= (#[trigger] dests[k]).0,
        midi + m <= usize::MAX,
    ensures
        last_write(fan_out(dests, midi, v), m, s, init) == if dests.contains(
            ((midi + m) as usize, s),
        ) {
            v
        } else {
            init
        },
    decreases dests.len(),
{
    let target = ((midi + m) as usize, s);
    if dests.len() > 0 {
        let rest = dests.drop_last();
        assert(fan_out(dests, midi, v).drop_last() =~= fan_out(rest, midi, v));
        assert forall|k: int| 0 <= k < rest.len() implies midi <= (#[trigger] rest[k]).0 by {
            assert(rest[k] == dests[k]);
        }
        lemma_fan_out_last_write(rest, midi, v, m, s, init);
        let d = dests.last();
        assert(dests[dests.len() - 1] == d);
        if d == target {
            assert(dests.contains(target));
        } else {
            assert(dests.contains(target) <==> rest.contains(target)) by {
                if dests.contains(target) {
                    let k = choose|k: int| 0 <= k < dests.len() && dests[k] == target;
                    assert(k != dests.len() - 1);
                    assert(rest[k] == target);
                }
                if rest.contains(target) {
                    let k = choose|k: int| 0 <= k < rest.len() && rest[k] == target;
                    assert(dests[k] == target);
                }
            }
        }
    } else {
        assert(!dests.contains(target));
    }
}

proof fn lemma_propagation_self_feed(r: Rack, staged: Seq<u64>, m: usize, s: usize, n: nat)
    requires
        r.wf(),
        staged.len() == r.ports(),
        n <= r.ports(),
        r.control_count() + m < r.ports(),
        forall|q: int|
            0 <= q < r.ports() && q != r.control_count() + m ==> !(#[trigger] r.patch_table()[q]).contains(
                ((r.control_count() + m) as usize, s),
            ),
        r.patch_table()[r.control_count() + m].contains(((r.control_count() + m) as usize, s)),
    ensures
        last_write(
            propagation(r.patch_table(), r.control_count() as usize, r.committed(), staged, n),
            m,
            s,
            r.committed()[r.control_count() + m],
        ) == if n > r.control_count() + m {
            staged[r.control_count() + m]
        } else {
            r.committed()[r.control_count() + m]
        },
    decreases n,
{
    let p = r.control_count() + m;
    let midi = r.control_count() as usize;
    if n > 0 {
        let q = n - 1;
        lemma_propagation_self_feed(r, staged, m, s, q as nat);
        let before = propagation(r.patch_table(), midi, r.committed(), staged, q as nat);
        let step = if staged[q] != r.committed()[q] {
            fan_out(r.patch_table()[q], midi, staged[q])
        } else {
            Seq::empty()
        };
        lemma_last_write_concat(before, step, m, s, r.committed()[p]);
        if staged[q] != r.committed()[q] {
            assert forall|k: int| 0 <= k < r.patch_table()[q].len() implies midi <= (
            #[trigger] r.patch_table()[q][k]).0 by {}
            lemma_fan_out_last_write(
                r.patch_table()[q],
                midi,
                staged[q],
                m,
                s,
                last_write(before, m, s, r.committed()[p]),
            );
        } else {
            assert(step.len() == 0);
        }
    }
}

/// One sample of delay on a feedback cable. Let input `slot` of the
/// `module`-th module be fed by a cable from that module's own output port
/// and by no other cable. If before an advance the input holds the port's
/// committed word, then after the advance, once the returned writes are
/// applied in order, it holds the word the module produced in this advance
/// (and which is now committed). So the module reads on every sample what
/// it produced on the sample before, never what it produces on the same one.
pub proof fn lemma_feedback_one_sample_lag(r: Rack, outputs: Seq<u64>, module: usize, slot: usize)
    requires
        r.wf(),
        outputs.len() == r.module_count(),
        module < r.module_count(),
        forall|q: int|
            0 <= q < r.ports() && q != r.control_count() + module ==> !(
            #[trigger] r.patch_table()[q]).contains(
                ((r.control_count() + module) as usize, slot),
            ),
        r.patch_table()[r.control_count() + module].contains(
            ((r.control_count() + module) as usize, slot),
        ),
    ensures
        last_write(
            propagation(
                r.patch_table(),
                r.control_count() as usize,
                r.committed(),
                r.staged_with(outputs),
                r.ports(),
            ),
            module,
            slot,
            r.committed()[r.control_count() + module],
        ) == outputs[module as int],
        r.staged_with(outputs)[r.control_count() + module] == outputs[module as int],
{
    lemma_propagation_self_feed(r, r.staged_with(outputs), module, slot, r.ports());
}

} // verus!
