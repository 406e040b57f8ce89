//! The tape: cells addressed by a signed position, blank wherever nothing was
//! written, grown on demand at either end, with a record of every write.
//!
//! The record is a list of snapshots. Each snapshot is a copy of the cells as
//! they were after one write, kept together with the origin that was valid
//! then, and is never touched again: a position is found in a snapshot
//! through the snapshot's own origin, not through the current one.

use vstd::prelude::*;
use crate::data_structs::{TapeShift, TapeSymbol};

verus! {

/// A run of `n` blank cells; empty when `n` is not positive.
pub open spec fn blanks(n: int) -> Seq<TapeSymbol> {
    Seq::new(
        if n > 0 {
            n as nat
        } else {
            0
        },
        |i: int| TapeSymbol::Zero,
    )
}

/// What `Tape::grow` makes of a buffer: `n` blanks in front for `Left`,
/// `n + 1` blanks at the back for `Right`.
pub open spec fn grown(cells: Seq<TapeSymbol>, n: int, shift: TapeShift) -> Seq<TapeSymbol> {
    match shift {
        TapeShift::Left => blanks(n) + cells,
        TapeShift::Right => cells + blanks(n + 1),
    }
}

/// The stored part of a tape: the cells, and the index among them of
/// position 0.
pub struct Snapshot {
    pub cells: Seq<TapeSymbol>,
    pub origin: int,
}

impl Snapshot {
    /// The symbol at `position`: the stored one, or blank outside the cells.
    pub open spec fn read(self, position: int) -> TapeSymbol {
        if 0 <= position + self.origin < self.cells.len() {
            self.cells[position + self.origin]
        } else {
            TapeSymbol::Zero
        }
    }

    /// The cells after a write: filled up with blanks on the side where
    /// `position` lies outside them, just far enough for it to exist, and
    /// holding `symbol` there. Blanks added in front move the origin by
    /// their number.
    pub open spec fn write(self, position: int, symbol: TapeSymbol) -> Snapshot {
        let index = position + self.origin;
        let left = if index < 0 {
            -index
        } else {
            0
        };
        let filled = blanks(left) + self.cells + blanks(index + 1 - self.cells.len());
        Snapshot { cells: filled.update(index + left, symbol), origin: self.origin + left }
    }

    /// The cells once the head has come to stand at `position` by a move in
    /// the direction `shift`: where the position lies outside them, the
    /// buffer is grown by `Tape::grow` with the amount 1 in that direction,
    /// and a growth in front moves the origin by one.
    pub open spec fn reach(self, position: int, shift: TapeShift) -> Snapshot {
        if 0 <= position + self.origin < self.cells.len() {
            self
        } else {
            Snapshot {
                cells: grown(self.cells, 1, shift),
                origin: if shift == TapeShift::Left {
                    self.origin + 1
                } else {
                    self.origin
                },
            }
        }
    }
}

/// The mathematical tape: what it holds now, and what it held after each
/// write, oldest first, starting with the blank tape.
pub struct TapeView {
    pub current: Snapshot,
    pub history: Seq<Snapshot>,
}

impl TapeView {
    /// The tape that nothing was written to: one blank cell at position 0,
    /// and that state as the only history entry.
    pub open spec fn blank() -> TapeView {
        let start = Snapshot { cells: seq![TapeSymbol::Zero], origin: 0 };
        TapeView { current: start, history: seq![start] }
    }

    /// The symbol at `position` now.
    pub open spec fn read(self, position: int) -> TapeSymbol {
        self.current.read(position)
    }

    /// A write changes the current cells and appends them, with their
    /// origin, to the history; the earlier entries stay as they are.
    pub open spec fn write(self, position: int, symbol: TapeSymbol) -> TapeView {
        let next = self.current.write(position, symbol);
        TapeView { current: next, history: self.history.push(next) }
    }

    /// The tape after a series of writes, each a position and a symbol, made
    /// in the order given.
    pub open spec fn write_all(self, writes: Seq<(int, TapeSymbol)>) -> TapeView
        decreases writes.len(),
    {
        if writes.len() == 0 {
            self
        } else {
            self.write_all(writes.drop_last()).write(writes.last().0, writes.last().1)
        }
    }
}

/// The tape. `tape` holds the stored cells and `zero_index` the index among
/// them of position 0; `tape_history` holds a copy of the cells for the blank
/// tape and for each write since, and `zero_history` the origin that goes
/// with each copy.
#[derive(Debug, Clone)]
pub struct Tape {
    pub tape_history: Vec<Vec<TapeSymbol>>,
    pub tape: Vec<TapeSymbol>,
    pub zero_history: Vec<u32>,
    pub zero_index: u32,
}

impl View for Tape {
    type V = TapeView;

    open spec fn view(&self) -> TapeView {
        TapeView {
            current: Snapshot { cells: self.tape@, origin: self.zero_index as int },
            history: Seq::new(
                self.tape_history.len() as nat,
                |i: int|
                    Snapshot {
                        cells: self.tape_history[i]@,
                        origin: self.zero_history[i] as int,
                    },
            ),
        }
    }
}

/// The symbol at `position` in cells with the given origin.
fn read_cells(cells: &Vec<TapeSymbol>, origin: u32, position: i32) -> (symbol: TapeSymbol)
    ensures
        symbol == (Snapshot { cells: cells@, origin: origin as int }).read(position as int),
{
    let index: i64 = origin as i64 + position as i64;
    if index < 0 || index as u64 >= cells.len() as u64 {
        TapeSymbol::Zero
    } else {
        cells[index as usize]
    }
}

/// Puts `count` blank cells in front of `cells`.
fn extend_left(cells: &mut Vec<TapeSymbol>, count: u64)
    ensures
        final(cells)@ == blanks(count as int) + old(cells)@,
{
    let mut done: u64 = 0;
    while done < count
        invariant
            done <= count,
            cells@ == blanks(done as int) + old(cells)@,
        decreases count - done,
    {
        cells.insert(0, TapeSymbol::Zero);
        done = done + 1;
    }
}

/// Puts `count` blank cells behind `cells`.
fn extend_right(cells: &mut Vec<TapeSymbol>, count: u64)
    ensures
        final(cells)@ == old(cells)@ + blanks(count as int),
{
    let mut done: u64 = 0;
    while done < count
        invariant
            done <= count,
            cells@ == old(cells)@ + blanks(done as int),
        decreases count - done,
    {
        cells.push(TapeSymbol::Zero);
        done = done + 1;
    }
}

impl Tape {
    /// The history holds at least the entry that the tape began with, and
    /// every entry has its origin stored with it.
    pub open spec fn wf(&self) -> bool {
        &&& self.tape_history.len() >= 1
        &&& self.tape_history.len() == self.zero_history.len()
    }

    /// The blank tape.
    pub fn new() -> (tape: Self)
        ensures
            tape.wf(),
            tape@ == TapeView::blank(),
    {
        let tape = Self {
            tape_history: vec![vec![TapeSymbol::Zero]],
            tape: vec![TapeSymbol::Zero],
            zero_history: vec![0],
            zero_index: 0,
        };
        assert(tape@.history[0].cells =~= TapeView::blank().history[0].cells);
        assert(tape@.history =~= TapeView::blank().history);
        tape
    }

    /// Grows a buffer of cells by blanks: `n` of them in front for `Left`,
    /// `n + 1` of them at the back for `Right`; none where that number is not
    /// positive. The origin that goes with the buffer is the caller's to
    /// move.
    pub fn grow(tape: &mut Vec<TapeSymbol>, n: i32, shift: TapeShift)
        ensures
            final(tape)@ == grown(old(tape)@, n as int, shift),
    {
        match shift {
            TapeShift::Left => {
                if n > 0 {
                    extend_left(tape, n as u64);
                }
            },
            TapeShift::Right => {
                if n >= 0 {
                    extend_right(tape, n as u64 + 1);
                }
            },
        }
    }

    /// Writes `symbol` at `position`. Where the position lies in front of the
    /// stored cells, as many blanks are put in front as it takes to make it
    /// the first cell, and the origin moves by their number; where it lies
    /// behind them, blanks are appended until it is the last cell. The cells
    /// as written and their origin are appended to the history.
    pub fn set(&mut self, position: i32, symbol: TapeSymbol)
        requires
            old(self).wf(),
        ensures
            final(self).wf(),
            final(self)@ == old(self)@.write(position as int, symbol),
            final(self).tape_history.len() == old(self).tape_history.len() + 1,
            final(self).zero_history.len() == old(self).zero_history.len() + 1,
    {
        let index: i64 = self.zero_index as i64 + position as i64;
        if index < 0 {
            let diff: u32 = (-index) as u32;
            extend_left(&mut self.tape, diff as u64);
            self.zero_index = self.zero_index + diff;
            self.tape[0] = symbol;
        } else if index as u64 >= self.tape.len() as u64 {
            let diff: u64 = index as u64 - self.tape.len() as u64;
            extend_right(&mut self.tape, diff + 1);
            let last_index: usize = self.tape.len() - 1;
            self.tape[last_index] = symbol;
        } else {
            self.tape[index as usize] = symbol;
        }

        self.tape_history.push(self.tape.clone());
        self.zero_history.push(self.zero_index);
        assert(self@.history =~= old(self)@.write(position as int, symbol).history);
    }

    /// The symbol at `position`: blank where the position lies outside the
    /// stored cells.
    pub fn get(&self, position: i32) -> (symbol: TapeSymbol)
        ensures
            symbol == self@.read(position as int),
    {
        read_cells(&self.tape, self.zero_index, position)
    }

    /// The symbol that stood at `position` in the history entry at index
    /// `entry`: the entry is read through the origin stored with it.
    pub fn get_at(&self, entry: usize, position: i32) -> (symbol: TapeSymbol)
        requires
            self.wf(),
            entry < self.tape_history.len(),
        ensures
            symbol == self@.history[entry as int].read(position as int),
    {
        read_cells(&self.tape_history[entry], self.zero_history[entry], position)
    }
}

/// A write is read back at its position, however far that lies from the cells
/// stored so far, and every other position reads as before.
pub proof fn law_write_then_read(tape: TapeView, position: int, symbol: TapeSymbol, other: int)
    ensures
        tape.write(position, symbol).read(position) == symbol,
        other != position ==> tape.write(position, symbol).read(other) == tape.read(other),
{
}

/// A position that none of the writes made to a blank tape names reads blank.
pub proof fn law_unwritten_reads_blank(writes: Seq<(int, TapeSymbol)>, position: int)
    requires
        forall|i: int| 0 <= i < writes.len() ==> (#[trigger] writes[i]).0 != position,
    ensures
        TapeView::blank().write_all(writes).read(position) == TapeSymbol::Zero,
    decreases writes.len(),
{
    if writes.len() > 0 {
        let earlier = writes.drop_last();
        law_unwritten_reads_blank(earlier, position);
        law_write_then_read(
            TapeView::blank().write_all(earlier),
            writes.last().0,
            writes.last().1,
            position,
        );
    }
}

/// After `k` writes to a blank tape the history holds `k + 1` entries: the
/// blank tape, and one entry for each write.
pub proof fn law_history_length(writes: Seq<(int, TapeSymbol)>)
    ensures
        TapeView::blank().write_all(writes).history.len() == writes.len() + 1,
    decreases writes.len(),
{
    if writes.len() > 0 {
        law_history_length(writes.drop_last());
    }
}

/// The history entry at index `i` is the tape as it stood after the first `i`
/// writes: read through its own origin, it gives at every position what the
/// tape gave then, whatever was written since.
pub proof fn law_history_replays(writes: Seq<(int, TapeSymbol)>, i: int, position: int)
    requires
        0 <= i <= writes.len(),
    ensures
        TapeView::blank().write_all(writes).history.len() == writes.len() + 1,
        TapeView::blank().write_all(writes).history[i] == TapeView::blank().write_all(
            writes.take(i),
        ).current,
        TapeView::blank().write_all(writes).history[i].read(position)
            == TapeView::blank().write_all(writes.take(i)).read(position),
    decreases writes.len(),
{
    law_history_length(writes);
    if i == writes.len() {
        assert(writes.take(i) =~= writes);
        if writes.len() > 0 {
            law_history_length(writes.drop_last());
        }
    } else {
        let earlier = writes.drop_last();
        assert(earlier.take(i) =~= writes.take(i));
        law_history_length(earlier);
        law_history_replays(earlier, i, position);
    }
}

} // verus!
