use vstd::prelude::*;
use crate::chance::below;

verus! {

broadcast use vstd::array::group_array_axioms;

/// The cells a chain works on: inputs in 0-7, cache in 8-15, outputs in 16-23.
pub type DataBuffer = [bool; 24];

/// The address of a cell an operation reads.
pub type ReadIndex = usize;

/// The address of a cell an operation writes.
pub type WriteIndex = usize;

/// Number of operations in a chain.
pub const CHAIN: usize = 16;

/// One step of a chain: combines the cell it reads into the cell it writes.
#[derive(Copy, Clone, Debug, PartialEq, Eq, Structural)]
pub enum Opperation {
    And(ReadIndex, WriteIndex),
    Or(ReadIndex, WriteIndex),
    Xor(ReadIndex, WriteIndex),
    Not(ReadIndex, WriteIndex),
}

impl Opperation {
    /// The cell the operation reads.
    pub open spec fn read(self) -> usize {
        match self {
            Opperation::And(r, _) => r,
            Opperation::Or(r, _) => r,
            Opperation::Xor(r, _) => r,
            Opperation::Not(r, _) => r,
        }
    }

    /// The cell the operation writes.
    pub open spec fn write(self) -> usize {
        match self {
            Opperation::And(_, w) => w,
            Opperation::Or(_, w) => w,
            Opperation::Xor(_, w) => w,
            Opperation::Not(_, w) => w,
        }
    }

    /// Both addresses fall inside a data buffer.
    pub open spec fn in_buffer(self) -> bool {
        self.read() < 24 && self.write() < 24
    }

    /// The buffer after the operation: the written cell combined with the
    /// read one (and, or, xor), or set to the negation of the read one.
    pub open spec fn apply(self, buf: Seq<bool>) -> Seq<bool> {
        match self {
            Opperation::And(r, w) => buf.update(w as int, buf[w as int] && buf[r as int]),
            Opperation::Or(r, w) => buf.update(w as int, buf[w as int] || buf[r as int]),
            Opperation::Xor(r, w) => buf.update(w as int, buf[w as int] != buf[r as int]),
            Opperation::Not(r, w) => buf.update(w as int, !buf[r as int]),
        }
    }

    /// The operation of the next kind, in the order And, Or, Xor, Not, And,
    /// on the same cells.
    pub open spec fn cycled(self) -> Opperation {
        match self {
            Opperation::And(r, w) => Opperation::Or(r, w),
            Opperation::Or(r, w) => Opperation::Xor(r, w),
            Opperation::Xor(r, w) => Opperation::Not(r, w),
            Opperation::Not(r, w) => Opperation::And(r, w),
        }
    }

    /// The same kind of operation reading the same cell, writing cell `to`.
    pub open spec fn rewired(self, to: usize) -> Opperation {
        match self {
            Opperation::And(r, _) => Opperation::And(r, to),
            Opperation::Or(r, _) => Opperation::Or(r, to),
            Opperation::Xor(r, _) => Opperation::Xor(r, to),
            Opperation::Not(r, _) => Opperation::Not(r, to),
        }
    }

    /// The operation of kind `kind` (And, Or, Xor, Not counted from zero)
    /// reading cell `read` and writing cell `write`.
    pub open spec fn kind_of(kind: usize, read: usize, write: usize) -> Opperation {
        if kind == 0 {
            Opperation::And(read, write)
        } else if kind == 1 {
            Opperation::Or(read, write)
        } else if kind == 2 {
            Opperation::Xor(read, write)
        } else {
            Opperation::Not(read, write)
        }
    }

    /// Builds the operation of kind `kind` (see `kind_of`).
    pub fn of_kind(kind: usize, read: ReadIndex, write: WriteIndex) -> (r: Self)
        requires
            kind < 4,
        ensures
            r == Opperation::kind_of(kind, read, write),
    {
        if kind == 0 {
            Opperation::And(read, write)
        } else if kind == 1 {
            Opperation::Or(read, write)
        } else if kind == 2 {
            Opperation::Xor(read, write)
        } else {
            Opperation::Not(read, write)
        }
    }

    /// An operation of a random kind that reads cell `index` and writes cell
    /// `index + 8`.
    pub fn from_rng(index: ReadIndex, rng: &mut rand::rngs::ThreadRng) -> (r: Self)
        requires
            index < CHAIN,
        ensures
            r.read() == index,
            r.write() == index + 8,
            exists|kind: usize| kind < 4 && r == #[trigger] Opperation::kind_of(kind, index, (index + 8) as usize),
    {
        let kind = below(rng, 4);
        Opperation::of_kind(kind, index, index + 8)
    }

    /// Turns the operation into the next kind (see `cycled`).
    pub fn cycle(&mut self)
        ensures
            *final(self) == old(self).cycled(),
    {
        *self = match *self {
            Opperation::And(r, w) => Opperation::Or(r, w),
            Opperation::Or(r, w) => Opperation::Xor(r, w),
            Opperation::Xor(r, w) => Opperation::Not(r, w),
            Opperation::Not(r, w) => Opperation::And(r, w),
        };
    }

    /// Makes the operation write cell `to_index`, keeping its kind and the
    /// cell it reads (see `rewired`).
    pub fn set_write(&mut self, to_index: WriteIndex)
        ensures
            *final(self) == old(self).rewired(to_index),
            final(self).read() == old(self).read(),
            final(self).write() == to_index,
    {
        *self = match *self {
            Opperation::And(r, _) => Opperation::And(r, to_index),
            Opperation::Or(r, _) => Opperation::Or(r, to_index),
            Opperation::Xor(r, _) => Opperation::Xor(r, to_index),
            Opperation::Not(r, _) => Opperation::Not(r, to_index),
        };
    }
}

impl Default for Opperation {
    fn default() -> (r: Self)
        ensures
            r == Opperation::And(0, 7),
    {
        Opperation::And(0, 7)
    }
}

/// The buffer after running `ops` in order.
pub open spec fn run_all(ops: Seq<Opperation>, buf: Seq<bool>) -> Seq<bool>
    decreases ops.len(),
{
    if ops.len() == 0 {
        buf
    } else {
        ops.last().apply(run_all(ops.drop_last(), buf))
    }
}

/// One change of a chain during evolution.
#[derive(Copy, Clone, Debug, PartialEq, Eq, Structural)]
pub enum Mutation {
    /// Makes operation `op` write cell `to`.
    Rewire { op: usize, to: usize },
    /// Exchanges the operations at `a` and `b`.
    Swap { a: usize, b: usize },
    /// Turns operation `op` into the next kind.
    Cycle { op: usize },
}

impl Mutation {
    /// The change names operations of a chain and cells of a buffer.
    pub open spec fn fits(self) -> bool {
        match self {
            Mutation::Rewire { op, to } => op < 16 && to < 24,
            Mutation::Swap { a, b } => a < 16 && b < 16,
            Mutation::Cycle { op } => op < 16,
        }
    }

    /// The change is one that evolution draws: an input operation (0-7)
    /// made to write a cache cell (8-15); an exchange of one of operations 0-3
    /// with one of 4-7, or of one of 8-9 with one of 10-11; or a new kind
    /// for any operation.
    pub open spec fn is_evolution_step(self) -> bool {
        match self {
            Mutation::Rewire { op, to } => op < 8 && 8 <= to < 16,
            Mutation::Swap { a, b } => (a < 4 && 4 <= b < 8) || (8 <= a < 10 && 10 <= b < 12),
            Mutation::Cycle { op } => op < 16,
        }
    }

    /// The evolution step that the draws `choice` (below 4), `coin`, `x`
    /// (below 16) and `y` (below 8) pick: on choice 0 input operation `x % 8`
    /// is made to write cache cell `8 + y`; on choice 1 operation `x % 4` is
    /// exchanged with `4 + y % 4` when `coin` is set, operation `8 + x % 2`
    /// with `10 + y % 2` when not; otherwise operation `x` turns into the next
    /// kind.
    pub open spec fn drawn(choice: usize, coin: bool, x: usize, y: usize) -> Mutation {
        if choice == 0 {
            Mutation::Rewire { op: (x % 8) as usize, to: (8 + y) as usize }
        } else if choice == 1 {
            if coin {
                Mutation::Swap { a: (x % 4) as usize, b: (4 + y % 4) as usize }
            } else {
                Mutation::Swap { a: (8 + x % 2) as usize, b: (10 + y % 2) as usize }
            }
        } else {
            Mutation::Cycle { op: x }
        }
    }

    /// Picks the evolution step of the draws (see `drawn`).
    pub fn from_draws(choice: usize, coin: bool, x: usize, y: usize) -> (r: Mutation)
        requires
            choice < 4,
            x < 16,
            y < 8,
        ensures
            r == Mutation::drawn(choice, coin, x, y),
            r.is_evolution_step(),
            r.fits(),
    {
        if choice == 0 {
            Mutation::Rewire { op: x % 8, to: 8 + y }
        } else if choice == 1 {
            if coin {
                Mutation::Swap { a: x % 4, b: 4 + y % 4 }
            } else {
                Mutation::Swap { a: 8 + x % 2, b: 10 + y % 2 }
            }
        } else {
            Mutation::Cycle { op: x }
        }
    }

    /// The operations after the change.
    pub open spec fn applied(self, ops: Seq<Opperation>) -> Seq<Opperation> {
        match self {
            Mutation::Rewire { op, to } => ops.update(op as int, ops[op as int].rewired(to)),
            Mutation::Swap { a, b } => ops.update(a as int, ops[b as int]).update(b as int, ops[a as int]),
            Mutation::Cycle { op } => ops.update(op as int, ops[op as int].cycled()),
        }
    }
}

/// Each of the first eight operations reads an input cell (0-7).
pub open spec fn inputs_read_inputs(ops: Seq<Opperation>) -> bool {
    forall|i: int| 0 <= i < 8 ==> (#[trigger] ops[i]).read() < 8
}

/// An evolution step keeps every input operation reading an input cell:
/// rewiring moves only the written cell, a new kind keeps both cells, and
/// exchanges stay among the input operations or among later ones.
pub proof fn lemma_evolution_keeps_input_reads(ops: Seq<Opperation>, m: Mutation)
    requires
        ops.len() == 16,
        inputs_read_inputs(ops),
        m.is_evolution_step(),
    ensures
        inputs_read_inputs(m.applied(ops)),
{
    let after = m.applied(ops);
    assert forall|i: int| 0 <= i < 8 implies (#[trigger] after[i]).read() < 8 by {
        match m {
            Mutation::Swap { a, b } => {
                if i == a {
                    assert(ops[b as int].read() < 8);
                } else if i == b {
                    assert(ops[a as int].read() < 8);
                } else {
                    assert(ops[i].read() < 8);
                }
            },
            _ => {
                assert(ops[i].read() < 8);
            },
        }
    }
}

/// Some operation of `ops` writes cell `c`.
pub open spec fn writes_to(ops: Seq<Opperation>, c: int) -> bool {
    exists|j: int| 0 <= j < ops.len() && (#[trigger] ops[j]).write() == c
}

/// Running operations changes only the cells they write, and keeps the
/// buffer's length.
pub proof fn lemma_run_all_frame(ops: Seq<Opperation>, buf: Seq<bool>, c: int)
    requires
        forall|j: int| 0 <= j < ops.len() ==> (#[trigger] ops[j]).in_buffer(),
        buf.len() == 24,
        !writes_to(ops, c),
    ensures
        run_all(ops, buf).len() == 24,
        0 <= c < 24 ==> run_all(ops, buf)[c] == buf[c],
    decreases ops.len(),
{
    if ops.len() > 0 {
        let rest = ops.drop_last();
        assert forall|j: int| 0 <= j < rest.len() implies (#[trigger] rest[j]).in_buffer() by {
            assert(rest[j] == ops[j]);
        }
        if writes_to(rest, c) {
            let j = choose|j: int| 0 <= j < rest.len() && (#[trigger] rest[j]).write() == c;
            assert(ops[j] == rest[j]);
        }
        lemma_run_all_frame(rest, buf, c);
        assert(ops[ops.len() - 1].write() != c);
        assert(ops.last().in_buffer());
    }
}

/// A fixed sequence of operations run over a data buffer.
#[derive(Copy, Clone, Debug)]
pub struct Chain {
    pub opp_list: [Opperation; 16],
    pub age: u64,
}

impl Chain {
    /// Every operation stays inside a data buffer.
    pub open spec fn wf(&self) -> bool {
        forall|i: int| 0 <= i < 16 ==> (#[trigger] self.opp_list@[i]).in_buffer()
    }

    /// A chain whose operation `i` has a random kind, reads cell `i` and
    /// writes cell `i + 8`.
    pub fn new(rng: &mut rand::rngs::ThreadRng) -> (r: Chain)
        ensures
            r.wf(),
            r.age == 0,
            forall|i: int|
                0 <= i < 16 ==> (#[trigger] r.opp_list@[i]).read() == i && r.opp_list@[i].write() == i
                    + 8,
    {
        let mut opp_list = [Opperation::And(0, 7);16];
        let mut i: usize = 0;
        while i < CHAIN
            invariant
                i <= 16,
                forall|j: int|
                    0 <= j < i ==> (#[trigger] opp_list@[j]).read() == j && opp_list@[j].write()
                        == j + 8,
            decreases 16 - i,
        {
            opp_list[i] = Opperation::from_rng(i, rng);
            i = i + 1;
        }
        Chain { opp_list, age: 0 }
    }

    /// Runs every operation in order over `data_buffer` and counts the run.
    pub fn execute(&mut self, data_buffer: &mut DataBuffer)
        requires
            old(self).wf(),
            old(self).age < u64::MAX,
        ensures
            final(data_buffer)@ == run_all(old(self).opp_list@, old(data_buffer)@),
            forall|c: int|
                0 <= c < 24 && !writes_to(old(self).opp_list@, c) ==> #[trigger] final(data_buffer)@[c]
                    == old(data_buffer)@[c],
            final(self).opp_list == old(self).opp_list,
            final(self).age == old(self).age + 1,
    {
        let mut i: usize = 0;
        while i < CHAIN
            invariant
                i <= 16,
                self.wf(),
                self.opp_list == old(self).opp_list,
                self.age == old(self).age,
                data_buffer@ == run_all(self.opp_list@.take(i as int), old(data_buffer)@),
            decreases 16 - i,
        {
            let ghost before = data_buffer@;
            let opp = self.opp_list[i];
            assert(opp.in_buffer());
            match opp {
                Opperation::And(r, w) => {
                    let v = data_buffer[w] && data_buffer[r];
                    data_buffer[w] = v;
                },
                Opperation::Or(r, w) => {
                    let v = data_buffer[w] || data_buffer[r];
                    data_buffer[w] = v;
                },
                Opperation::Xor(r, w) => {
                    let v = data_buffer[w] != data_buffer[r];
                    data_buffer[w] = v;
                },
                Opperation::Not(r, w) => {
                    let v = !data_buffer[r];
                    data_buffer[w] = v;
                },
            }
            assert(self.opp_list@.take(i + 1).drop_last() =~= self.opp_list@.take(i as int));
            assert(data_buffer@ =~= opp.apply(before));
            i = i + 1;
        }
        assert(self.opp_list@.take(16) =~= self.opp_list@);
        assert forall|c: int|
            0 <= c < 24 && !writes_to(old(self).opp_list@, c) implies #[trigger] data_buffer@[c]
            == old(data_buffer)@[c] by {
            lemma_run_all_frame(self.opp_list@, old(data_buffer)@, c);
        }
        self.age = self.age + 1;
    }

    /// Applies one change to the operations (see `Mutation::applied`).
    pub fn mutate(&mut self, m: Mutation)
        requires
            old(self).wf(),
            m.fits(),
        ensures
            final(self).wf(),
            final(self).opp_list@ == m.applied(old(self).opp_list@),
            final(self).age == old(self).age,
    {
        match m {
            Mutation::Rewire { op, to } => {
                let mut o = self.opp_list[op];
                o.set_write(to);
                self.opp_list[op] = o;
            },
            Mutation::Swap { a, b } => {
                let opp_a = self.opp_list[a];
                self.opp_list[a] = self.opp_list[b];
                self.opp_list[b] = opp_a;
            },
            Mutation::Cycle { op } => {
                let mut o = self.opp_list[op];
                o.cycle();
                self.opp_list[op] = o;
            },
        }
        assert(self.opp_list@ =~= m.applied(old(self).opp_list@));
    }

    /// Changes the chain at random by one evolution step (see `Mutation::drawn`):
    /// makes an input operation write another cache cell, exchanges two
    /// operations, or turns one into the next kind.
    pub fn evolve(&mut self, rng: &mut rand::rngs::ThreadRng)
        requires
            old(self).wf(),
        ensures
            final(self).wf(),
            final(self).age == old(self).age,
            exists|m: Mutation|
                #![trigger m.applied(old(self).opp_list@)]
                m.is_evolution_step() && final(self).opp_list@ == m.applied(old(self).opp_list@),
            inputs_read_inputs(old(self).opp_list@) ==> inputs_read_inputs(final(self).opp_list@),
    {
        let choice = below(rng, 4);
        let coin = below(rng, 2) == 0;
        let x = below(rng, CHAIN);
        let y = below(rng, 8);
        let m = Mutation::from_draws(choice, coin, x, y);
        proof {
            if inputs_read_inputs(old(self).opp_list@) {
                lemma_evolution_keeps_input_reads(old(self).opp_list@, m);
            }
        }
        self.mutate(m);
    }
}

} // verus!
