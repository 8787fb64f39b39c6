//! A one-dimensional elementary cellular automaton on a ring of sixteen
//! cells, read out as a signed 16-bit noise sample.

use vstd::prelude::*;

verus! {

/// Number of cells on the ring.
pub const CELLS: usize = 16;

/// Weight of cell `n` when the ring is read as a little-endian binary number.
pub open spec fn place(n: nat) -> nat
    decreases n,
{
    if n == 0 {
        1
    } else {
        2 * place((n - 1) as nat)
    }
}

/// Whether bit `code` (0..8) of the rule number is set.
pub open spec fn rule_bit(rule: u8, code: u8) -> bool {
    rule & (1u8 << code) != 0
}

/// The three-cell neighbourhood of cell `i` as a number: left neighbour
/// weighs 4, the cell itself 2 and the right neighbour 1; the ring wraps.
pub open spec fn neighbourhood(cells: Seq<bool>, i: int) -> u8 {
    let n = cells.len() as int;
    ((if cells[(i + n - 1) % n] { 4int } else { 0int }) + (if cells[i] { 2int } else { 0int })
        + (if cells[(i + 1) % n] { 1int } else { 0int })) as u8
}

/// The ring after one generation under `rule`.
pub open spec fn next_generation(rule: u8, cells: Seq<bool>) -> Seq<bool> {
    Seq::new(cells.len(), |i: int| rule_bit(rule, neighbourhood(cells, i)))
}

/// The ring read as a little-endian binary number.
pub open spec fn ring_value(cells: Seq<bool>) -> nat
    decreases cells.len(),
{
    if cells.len() == 0 {
        0
    } else {
        ring_value(cells.drop_last()) + if cells.last() {
            place((cells.len() - 1) as nat)
        } else {
            0
        }
    }
}

/// The sample for a ring value `v` in `0..=65535`: `v` mapped linearly onto
/// `-32767..=32767` and rounded toward zero.
pub open spec fn sample_of(v: int) -> int {
    let n = (2 * v - 65535) * 32767;
    if n >= 0 {
        n / 65535
    } else {
        -((-n) / 65535)
    }
}

/// A ring of cells evolving under an elementary rule (0..=255).
pub struct Cellular {
    cells: Vec<bool>,
    rule: u8,
}

/// Relies on rand::random (thread-local generator): an arbitrary bit.
#[verifier::external_body]
fn random_cell() -> (r: bool) {
    rand::random::<bool>()
}

proof fn lemma_place_step(n: nat)
    ensures
        place(n + 1) == 2 * place(n),
        place(n) >= 1,
    decreases n,
{
    reveal_with_fuel(place, 2);
    if n > 0 {
        lemma_place_step((n - 1) as nat);
    }
}

proof fn lemma_place_sixteen()
    ensures
        place(16) == 65536,
{
    reveal_with_fuel(place, 17);
}

impl Cellular {
    pub closed spec fn view_cells(&self) -> Seq<bool> {
        self.cells@
    }

    pub closed spec fn view_rule(&self) -> u8 {
        self.rule
    }

    /// The well-formed rings are exactly the ones with sixteen cells.
    pub open spec fn wf(&self) -> bool {
        self.view_cells().len() == CELLS
    }

    /// A ring under `rule` whose cells are drawn at random.
    pub fn new(rule: u8) -> (r: Self)
        ensures
            r.wf(),
            r.view_rule() == rule,
    {
        let mut cells: Vec<bool> = Vec::new();
        let mut i: usize = 0;
        while i < CELLS
            invariant
                i <= CELLS,
                cells@.len() == i,
            decreases CELLS - i,
        {
            cells.push(random_cell());
            i = i + 1;
        }
        Cellular { cells, rule }
    }

    /// A ring under `rule` with the given cells.
    pub fn from_cells(rule: u8, cells: Vec<bool>) -> (r: Self)
        requires
            cells@.len() == CELLS,
        ensures
            r.wf(),
            r.view_rule() == rule,
            r.view_cells() == cells@,
    {
        Cellular { cells, rule }
    }

    /// The current cells, in ring order.
    pub fn cells(&self) -> (r: Vec<bool>)
        ensures
            r@ == self.view_cells(),
    {
        self.cells.clone()
    }

    /// Advances the ring by one generation: each cell becomes the rule's bit
    /// at its neighbourhood number.
    pub fn step(&mut self)
        requires
            old(self).wf(),
        ensures
            final(self).wf(),
            final(self).view_rule() == old(self).view_rule(),
            final(self).view_cells() == next_generation(old(self).view_rule(), old(self).view_cells()),
    {
        let mut cells: Vec<bool> = Vec::new();
        let mut i: usize = 0;
        while i < CELLS
            invariant
                self.wf(),
                i <= CELLS,
                cells@.len() == i,
                forall|j: int|
                    0 <= j < i ==> cells@[j] == rule_bit(
                        self.rule,
                        neighbourhood(self.cells@, j),
                    ),
            decreases CELLS - i,
        {
            let left_i = (i + 15) % 16;
            let right_i = (i + 1) % 16;
            let mut code: u8 = 0;
            if self.cells[left_i] {
                code = code + 4;
            }
            if self.cells[i] {
                code = code + 2;
            }
            if self.cells[right_i] {
                code = code + 1;
            }
            assert(code == neighbourhood(self.cells@, i as int));
            let next = (self.rule & (1u8 << code)) != 0;
            cells.push(next);
            i = i + 1;
        }
        assert(cells@ =~= next_generation(self.rule, self.cells@));
        self.cells = cells;
    }

    /// The ring read as a little-endian binary number and mapped linearly
    /// from `0..=65535` onto `-32767..=32767`, rounded toward zero.
    pub fn get_i16(&self) -> (r: i16)
        requires
            self.wf(),
        ensures
            r as int == sample_of(ring_value(self.view_cells()) as int),
    {
        let mut v: u32 = 0;
        let mut bit: u32 = 1;
        let mut i: usize = 0;
        proof {
            lemma_place_sixteen();
        }
        while i < CELLS
            invariant
                self.wf(),
                i <= CELLS,
                v as nat == ring_value(self.cells@.take(i as int)),
                bit as nat == place(i as nat),
                v < bit,
                bit <= 65536,
                bit as nat * place((CELLS - i) as nat) == 65536,
            decreases CELLS - i,
        {
            proof {
                lemma_place_step(i as nat);
                lemma_place_step((CELLS - i - 1) as nat);
                assert(self.cells@.take(i + 1).drop_last() =~= self.cells@.take(i as int));
                let p = place((CELLS - i - 1) as nat);
                assert(bit as nat * (2 * p) == 65536);
                assert((2 * bit) as nat * p == 65536) by (nonlinear_arith)
                    requires bit as nat * (2 * p) == 65536;
                assert(p >= 1);
                assert((2 * bit) as nat <= 65536) by (nonlinear_arith)
                    requires (2 * bit) as nat * p == 65536, p >= 1;
            }
            if self.cells[i] {
                v = v + bit;
            }
            bit = bit * 2;
            i = i + 1;
        }
        proof {
            assert(self.cells@.take(16) =~= self.cells@);
        }
        let n: i64 = (2 * (v as i64) - 65535) * 32767;
        let r: i64 = if n >= 0 {
            n / 65535
        } else {
            -((-n) / 65535)
        };
        r as i16
    }
}

} // verus!
