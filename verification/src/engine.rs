//! The engine: the lines for one index, one at a time.

use vstd::prelude::*;
use crate::line::line_at;
use crate::line::Line;
use crate::line::LineView;
use crate::line::Value;
use crate::options::Flags;
use crate::sequence::fib;
use crate::sequence::fits;
use crate::sequence::lemma_fib_monotonic;
use crate::sequence::lemma_fits_through_last_exact_index;
use crate::sequence::LAST_EXACT_INDEX;
use crate::text::decimal_string;

verus! {

/// The lines for index `index`: under progression one line for each index
/// from 0 up to it, else the one line for `index` itself.
pub open spec fn emission(index: nat, flags: Flags) -> Seq<LineView> {
    if flags.is_progression {
        Seq::new(index + 1, |i: int| line_at(i as nat, flags.print_index))
    } else {
        seq![line_at(index, flags.print_index)]
    }
}

/// The lines for one index, handed out from the first to the last.
///
/// The terms come from a ring of three slots, slot `i % 3` for F(i), each
/// the checked sum of the two before it. The first sum that does not fit
/// ends the exact terms: every line from there on is an approximation.
pub struct Engine {
    /// The index asked for.
    index: usize,
    /// The index of the line to come.
    next: usize,
    /// Whether the last line is out.
    done: bool,
    /// The ring of the latest exact terms.
    slots: [u128; 3],
    /// Whether a sum has left 128 bits.
    overflowed: bool,
    /// Whether the lines carry their index.
    labelled: bool,
}

impl Engine {
    /// The ring holds F(`next`) and the term before it, or else F(`next`)
    /// is beyond 128 bits.
    pub closed spec fn wf(&self) -> bool {
        &&& self.next <= self.index
        &&& self.overflowed ==> !fits(self.next as nat)
        &&& !self.overflowed ==> {
            &&& fits(self.next as nat)
            &&& self.slots[self.next as int % 3] == fib(self.next as nat)
            &&& self.next == 0 ==> self.slots[1] == 1
            &&& self.next >= 1 ==> self.slots[(self.next - 1) % 3] == fib((self.next - 1) as nat)
        }
    }

    /// The lines still to come, in order.
    pub closed spec fn remaining(&self) -> Seq<LineView> {
        if self.done {
            Seq::empty()
        } else {
            Seq::new(
                (self.index - self.next + 1) as nat,
                |j: int| line_at((self.next + j) as nat, self.labelled),
            )
        }
    }

    /// Moves on to the next index without a line.
    fn advance(&mut self)
        requires
            old(self).wf(),
            old(self).next < old(self).index,
        ensures
            final(self).wf(),
            final(self).next == old(self).next + 1,
            final(self).index == old(self).index,
            final(self).done == old(self).done,
            final(self).labelled == old(self).labelled,
    {
        let i = self.next + 1;
        if self.overflowed {
            proof {
                lemma_fib_monotonic(self.next as nat, i as nat);
            }
        } else if i >= 2 {
            match self.slots[(i - 1) % 3].checked_add(self.slots[(i - 2) % 3]) {
                Some(sum) => {
                    self.slots[i % 3] = sum;
                },
                None => {
                    self.overflowed = true;
                },
            }
        }
        self.next = i;
    }

    /// An engine for `index`, before its first line.
    pub fn new(index: usize, flags: &Flags) -> (engine: Engine)
        ensures
            engine.wf(),
            engine.remaining() == emission(index as nat, *flags),
    {
        let mut engine = Engine {
            index,
            next: 0,
            done: false,
            slots: [0, 1, 0],
            overflowed: false,
            labelled: flags.print_index,
        };
        if flags.is_progression {
        } else if index > LAST_EXACT_INDEX {
            proof {
                lemma_fits_through_last_exact_index(index as nat);
            }
            engine.next = index;
            engine.overflowed = true;
        } else {
            while engine.next < index
                invariant
                    engine.wf(),
                    engine.index == index,
                    !engine.done,
                    engine.labelled == flags.print_index,
                decreases index - engine.next,
            {
                engine.advance();
            }
        }
        assert(engine.remaining() =~= emission(index as nat, *flags));
        engine
    }

    /// Hands out the line to come.
    pub(crate) fn emit(&mut self) -> (line: Line)
        requires
            old(self).wf(),
            old(self).remaining().len() > 0,
        ensures
            final(self).wf(),
            line@ == old(self).remaining()[0],
            final(self).remaining() == old(self).remaining().drop_first(),
    {
        let i = self.next;
        let value = if self.overflowed {
            Value::Approximate(i)
        } else {
            Value::Exact(self.slots[i % 3])
        };
        let label = if self.labelled {
            Some(decimal_string(i as u128))
        } else {
            None
        };
        if i == self.index {
            self.done = true;
        } else {
            self.advance();
        }
        assert(self.remaining() =~= old(self).remaining().drop_first());
        Line { label, value }
    }

    /// The next line, or `None` once the last one is out.
    pub fn next_line(&mut self) -> (line: Option<Line>)
        requires
            old(self).wf(),
        ensures
            final(self).wf(),
            match line {
                Some(line) => {
                    &&& old(self).remaining().len() > 0
                    &&& line@ == old(self).remaining()[0]
                    &&& final(self).remaining() == old(self).remaining().drop_first()
                },
                None => {
                    &&& old(self).remaining().len() == 0
                    &&& final(self).remaining() == old(self).remaining()
                },
            },
    {
        if self.done {
            None
        } else {
            Some(self.emit())
        }
    }
}

} // verus!
