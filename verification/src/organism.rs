//! A fixed-length cyclic ring of cells bound to a genome, advanced one
//! whole generation at a time.
//!
//! Each tick slides a 7-cell window across the ring, one window per cell,
//! with the windows of the first and last cells wrapping around the ring
//! (toroidal boundary). The window's key addresses the genome's rule
//! table, and the entry found there becomes the next state of the
//! window's center cell.

use vstd::prelude::*;

use crate::cell::{cells_bits, coin_flip, key_of, lemma_key_in_table, Cell, Genome, State};

verus! {

/// The 7-cell neighborhood of ring position `i`, read cyclically: the
/// three cells to the left, the cell itself, and the three cells to the
/// right, with index arithmetic wrapping modulo the ring length.
pub open spec fn ring_window(cells: Seq<bool>, i: int) -> Seq<bool>
    recommends
        3 <= cells.len(),
        0 <= i < cells.len(),
{
    Seq::new(7, |j: int| cells[(i + j + cells.len() - 3) % (cells.len() as int)])
}

/// One generation advance of the whole ring: every cell is replaced by
/// the table entry at the key of its cyclic 7-cell neighborhood.
pub open spec fn tick_spec(cells: Seq<bool>, table: Seq<bool>) -> Seq<bool>
    recommends
        3 <= cells.len(),
        table.len() == 128,
{
    Seq::new(cells.len(), |i: int| table[key_of(ring_window(cells, i))])
}

/// Cyclic boundary handling: in a ring of at least 7 cells, the
/// neighborhood of the first cell is the last three cells followed by
/// cells 0 through 3, and the neighborhood of the last cell is cells
/// `len - 4` through `len - 1` followed by the first three cells, both
/// in ring order.
pub proof fn lemma_ring_window_boundary(cells: Seq<bool>)
    requires
        7 <= cells.len(),
    ensures
        ring_window(cells, 0) =~= seq![
            cells[cells.len() - 3],
            cells[cells.len() - 2],
            cells[cells.len() - 1],
            cells[0],
            cells[1],
            cells[2],
            cells[3],
        ],
        ring_window(cells, cells.len() - 1) =~= seq![
            cells[cells.len() - 4],
            cells[cells.len() - 3],
            cells[cells.len() - 2],
            cells[cells.len() - 1],
            cells[0],
            cells[1],
            cells[2],
        ],
{
    let n = cells.len() as int;
    lemma_wrap(n - 3, n);
    lemma_wrap(n - 2, n);
    lemma_wrap(n - 1, n);
    lemma_wrap(n, n);
    lemma_wrap(n + 1, n);
    lemma_wrap(n + 2, n);
    lemma_wrap(n + 3, n);
    lemma_wrap(2 * n - 4, n);
    lemma_wrap(2 * n - 3, n);
    lemma_wrap(2 * n - 2, n);
    lemma_wrap(2 * n - 1, n);
    lemma_wrap(2 * n, n);
    lemma_wrap(2 * n + 1, n);
    lemma_wrap(2 * n + 2, n);
}

/// Wrapping an index that overshoots a positive ring length by less than
/// two full turns: the remainder subtracts as many whole lengths as fit.
proof fn lemma_wrap(x: int, n: int)
    requires
        0 < n,
        0 <= x < 3 * n,
    ensures
        x < n ==> x % n == x,
        n <= x < 2 * n ==> x % n == x - n,
        2 * n <= x ==> x % n == x - 2 * n,
{
    if x < n {
        vstd::arithmetic::div_mod::lemma_small_mod(x as nat, n as nat);
    } else if x < 2 * n {
        vstd::arithmetic::div_mod::lemma_mod_multiples_vanish(1, x - n, n);
        vstd::arithmetic::div_mod::lemma_small_mod((x - n) as nat, n as nat);
    } else {
        vstd::arithmetic::div_mod::lemma_mod_multiples_vanish(2, x - 2 * n, n);
        vstd::arithmetic::div_mod::lemma_small_mod((x - 2 * n) as nat, n as nat);
    }
}

/// A genome whose table holds the same entry everywhere is absorbing:
/// one tick sends every ring, whatever it held, to the ring that is that
/// entry everywhere — and so every later tick keeps it there.
pub proof fn lemma_uniform_table_tick(cells: Seq<bool>, table: Seq<bool>, b: bool)
    requires
        3 <= cells.len(),
        table.len() == 128,
        forall|k: int| 0 <= k < 128 ==> table[k] == b,
    ensures
        tick_spec(cells, table).len() == cells.len(),
        forall|i: int| 0 <= i < cells.len() ==> tick_spec(cells, table)[i] == b,
{
    assert forall|i: int| 0 <= i < cells.len() implies tick_spec(cells, table)[i] == b by {
        lemma_key_in_table(ring_window(cells, i));
    }
}

/// An ordered, fixed-length cyclic ring of cells together with the
/// genome that drives it.
pub struct Organism {
    cells: Vec<Cell>,
    genome: Genome,
}

impl Clone for Organism {
    /// A clone holds an equal ring and an equal rule table.
    fn clone(&self) -> (r: Organism)
        ensures
            r.ring() == self.ring(),
            r.table() == self.table(),
    {
        let cells = self.cells.clone();
        proof {
            assert(cells@ =~= self.cells@);
        }
        Organism { cells, genome: self.genome.clone() }
    }
}

impl Organism {
    /// The boolean states of the ring's cells, in ring order.
    pub closed spec fn ring(&self) -> Seq<bool> {
        cells_bits(self.cells@)
    }

    /// The genome's rule table.
    pub closed spec fn table(&self) -> Seq<bool> {
        self.genome@
    }

    /// A well-formed organism holds a full 128-entry table and a ring of
    /// at least 3 cells (so that the wrapped caps exist), small enough
    /// that the padded working sequence still fits in a vector.
    pub open spec fn wf(&self) -> bool {
        self.table().len() == 128 && 3 <= self.ring().len() && self.ring().len() + 6 <= usize::MAX
    }

    /// A ring of `size` cells with independent fair-coin initial states,
    /// bound to a clone of the given genome.
    pub fn from_genome(genome: &Genome, size: usize) -> (o: Organism)
        requires
            genome.wf(),
            3 <= size,
            size + 6 <= usize::MAX,
        ensures
            o.wf(),
            o.table() == genome@,
            o.ring().len() == size,
    {
        let mut cells: Vec<Cell> = Vec::new();
        while cells.len() < size
            invariant
                cells@.len() <= size,
            decreases size - cells.len(),
        {
            cells.push(Cell { state: State::from_bool(coin_flip()) });
        }
        Organism { cells, genome: genome.clone() }
    }

    /// A ring holding exactly the given cells, in order, bound to a
    /// clone of the given genome.
    pub fn from_cells(genome: &Genome, cells: Vec<Cell>) -> (o: Organism)
        requires
            genome.wf(),
            3 <= cells@.len(),
            cells@.len() + 6 <= usize::MAX,
        ensures
            o.wf(),
            o.table() == genome@,
            o.ring() == cells_bits(cells@),
    {
        Organism { cells, genome: genome.clone() }
    }

    /// The ring's cells, in ring order: the read-only projection an
    /// external renderer consumes.
    pub fn cells(&self) -> (r: &Vec<Cell>)
        ensures
            cells_bits(r@) == self.ring(),
            r@.len() == self.ring().len(),
    {
        &self.cells
    }

    /// Advances the ring by one generation. The working sequence is the
    /// ring with its last three cells prepended and its first three
    /// appended, so every 7-cell window wraps cyclically; window `i`
    /// decides cell `i` of the next generation, which entirely replaces
    /// the prior one. Total for a well-formed organism: the genome is
    /// kept and the ring size never changes.
    pub fn tick(self) -> (o: Organism)
        requires
            self.wf(),
        ensures
            o.wf(),
            o.table() == self.table(),
            o.ring().len() == self.ring().len(),
            o.ring() == tick_spec(self.ring(), self.table()),
    {
        let n = self.cells.len();
        let mut padded: Vec<Cell> = Vec::new();
        padded.push(self.cells[n - 3]);
        padded.push(self.cells[n - 2]);
        padded.push(self.cells[n - 1]);
        let mut i: usize = 0;
        while i < n
            invariant
                self.wf(),
                n == self.cells@.len(),
                i <= n,
                padded@.len() == 3 + i,
                padded@[0] == self.cells@[n - 3],
                padded@[1] == self.cells@[n - 2],
                padded@[2] == self.cells@[n - 1],
                forall|j: int| 0 <= j < i ==> padded@[3 + j] == self.cells@[j],
            decreases n - i,
        {
            padded.push(self.cells[i]);
            i = i + 1;
        }
        padded.push(self.cells[0]);
        padded.push(self.cells[1]);
        padded.push(self.cells[2]);
        proof {
            assert forall|p: int|
                0 <= p < n + 6 implies padded@[p] == self.cells@[(p + n - 3) % (n as int)] by {
                lemma_wrap(p + n - 3, n as int);
            }
        }
        let mut next: Vec<Cell> = Vec::new();
        let mut i: usize = 0;
        while i < n
            invariant
                self.wf(),
                n == self.cells@.len(),
                padded@.len() == n + 6,
                forall|p: int| 0 <= p < n + 6 ==> padded@[p] == self.cells@[(p + n - 3) % (
                n as int)],
                i <= n,
                next@.len() == i,
                forall|m: int|
                    0 <= m < i ==> next@[m].state.as_bool() == self.table()[key_of(
                        ring_window(self.ring(), m),
                    )],
            decreases n - i,
        {
            let window: &[Cell] = vstd::slice::slice_subrange(padded.as_slice(), i, i + 7);
            proof {
                assert(cells_bits(window@) =~= ring_window(self.ring(), i as int));
                lemma_key_in_table(ring_window(self.ring(), i as int));
            }
            let state = match self.genome.foo(window) {
                Ok(st) => st,
                Err(_) => {
                    proof {
                        assert(false);
                    }
                    State::Off
                },
            };
            next.push(Cell { state });
            i = i + 1;
        }
        proof {
            assert(cells_bits(next@) =~= tick_spec(self.ring(), self.table()));
        }
        Organism { cells: next, genome: self.genome }
    }
}

} // verus!
