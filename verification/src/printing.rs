//! The printed forms of the rule table and of the tape history, line by line.
//! They are made here as text; to write them out is the caller's part.

use vstd::prelude::*;
use vstd::string::StringExecFns;
use crate::data_structs::{TapeRule, TapeRuleKey, TapeState, TapeSymbol};
use crate::text::{decimal, push_char, push_decimal};
use crate::turing_machine::{first_rule, Turing};
use crate::turing_tape::{Snapshot, Tape};

verus! {

/// The states that head the columns of the printed table when it has
/// `count` of them: the working states in turn, then `Halt`. A working state
/// is numbered by its place in this row, as far as a `u8` holds it: of a
/// larger number the lowest eight bits are kept.
pub open spec fn shown_states(count: int) -> Seq<TapeState> {
    Seq::new(
        count as nat,
        |j: int|
            if j < count - 1 {
                TapeState::State(j as u8)
            } else {
                TapeState::Halt
            },
    )
}

/// The head line of the printed table: `#`, then each state between two
/// blanks and one.
pub open spec fn header_line(states: Seq<TapeState>) -> Seq<char>
    decreases states.len(),
{
    if states.len() == 0 {
        "#"@
    } else {
        header_line(states.drop_last()) + "  "@ + states.last().text() + " "@
    }
}

/// One cell of the printed table: a blank and the rule found for the key, or
/// three blanks where the table holds none.
pub open spec fn rule_cell(rules: Seq<(TapeRuleKey, TapeRule)>, key: TapeRuleKey) -> Seq<char> {
    match first_rule(rules, key) {
        Some(rule) => " "@ + rule.text(),
        None => "   "@,
    }
}

/// The line of the printed table for one symbol: the symbol, then the cell
/// for each state.
pub open spec fn symbol_line(
    rules: Seq<(TapeRuleKey, TapeRule)>,
    symbol: TapeSymbol,
    states: Seq<TapeState>,
) -> Seq<char>
    decreases states.len(),
{
    if states.len() == 0 {
        symbol.text()
    } else {
        symbol_line(rules, symbol, states.drop_last()) + rule_cell(
            rules,
            TapeRuleKey { symbol, state: states.last() },
        )
    }
}

/// The printed rule table, line by line: an empty line, the title, the head
/// line, one line for each symbol, an empty line. The table is taken to have
/// half as many states as it has entries.
pub open spec fn rules_lines(rules: Seq<(TapeRuleKey, TapeRule)>) -> Seq<Seq<char>> {
    let states = shown_states(rules.len() as int / 2);
    seq![Seq::<char>::empty(), "RULES OF THE TURING MACHINE:"@, header_line(states)] + Seq::new(
        TapeSymbol::all().len(),
        |i: int| symbol_line(rules, TapeSymbol::all()[i], states),
    ) + seq![Seq::<char>::empty()]
}

/// The cells as they are printed: the symbols one after the other.
pub open spec fn cells_text(cells: Seq<TapeSymbol>) -> Seq<char>
    decreases cells.len(),
{
    if cells.len() == 0 {
        Seq::empty()
    } else {
        cells_text(cells.drop_last()) + cells.last().text()
    }
}

/// `text` filled up with blanks at its end to `width` chars; left as it is
/// where it is that long already.
pub open spec fn padded(text: Seq<char>, width: int) -> Seq<char> {
    text + Seq::new(
        if width > text.len() {
            (width - text.len()) as nat
        } else {
            0
        },
        |i: int| ' ',
    )
}

/// The line printed for the history entry at `index`: its number, its cells
/// filled up to `width`, and its origin.
pub open spec fn history_line(index: int, entry: Snapshot, width: int) -> Seq<char> {
    "tape_"@ + decimal(index as nat) + ": "@ + padded(cells_text(entry.cells), width)
        + "  zero_index: "@ + decimal(entry.origin as nat)
}

/// The printed history, line by line: an empty line, the title, and one
/// line for each entry, its cells filled up to the length of the newest
/// entry.
pub open spec fn history_lines(history: Seq<Snapshot>) -> Seq<Seq<char>> {
    seq![Seq::<char>::empty(), "TAPE HISTORY: (zero_index from the first `1`)"@] + Seq::new(
        history.len(),
        |i: int| history_line(i, history[i], history.last().cells.len() as int),
    )
}

/// Each symbol is printed as one char.
proof fn lemma_cells_text_len(cells: Seq<TapeSymbol>)
    ensures
        cells_text(cells).len() == cells.len(),
    decreases cells.len(),
{
    if cells.len() > 0 {
        lemma_cells_text_len(cells.drop_last());
    }
}

impl Turing {
    /// The rule table as it is printed, line by line. The table has to hold
    /// two entries at least, which stand for one state.
    pub fn render_rules(&self) -> (lines: Vec<String>)
        requires
            self.rules.len() >= 2,
        ensures
            lines.len() == rules_lines(self.rules@).len(),
            forall|i: int| 0 <= i < lines.len() ==> (#[trigger] lines[i])@ == rules_lines(
                self.rules@,
            )[i],
    {
        let num_states: usize = self.rules.len() / 2;
        let mut states = vec![TapeState::Halt; num_states];
        let working: usize = num_states - 1;
        for i in 0..working
            invariant
                working == num_states - 1,
                states.len() == num_states,
                forall|j: int| 0 <= j < i ==> states[j] == TapeState::State(j as u8),
                forall|j: int| i <= j < num_states ==> states[j] == TapeState::Halt,
        {
            states[i] = TapeState::State(#[verifier::truncate] (i as u8));
        }
        assert(states@ =~= shown_states(num_states as int));

        let mut lines: Vec<String> = Vec::new();
        lines.push(String::new());
        lines.push(String::from_str("RULES OF THE TURING MACHINE:"));

        let mut header = String::from_str("#");
        for state in row: states.iter()
            invariant
                row.seq().unref() == states@,
                header@ == header_line(states@.take(row.index())),
        {
            assert(states@.take(row.index() + 1).drop_last() =~= states@.take(row.index()));
            header.append("  ");
            header.append(state.to_string().as_str());
            header.append(" ");
        }
        assert(states@.take(states.len() as int) =~= states@);
        lines.push(header);

        for symbol in symbols: TapeSymbol::iter()
            invariant
                states@ == shown_states(self.rules.len() as int / 2),
                symbols.seq().unref() == TapeSymbol::all(),
                lines.len() == 3 + symbols.index(),
                forall|i: int| 0 <= i < lines.len() ==> (#[trigger] lines[i])@ == rules_lines(
                    self.rules@,
                )[i],
        {
            let mut line = symbol.to_string();
            for state in row: states.iter()
                invariant
                    row.seq().unref() == states@,
                    line@ == symbol_line(self.rules@, *symbol, states@.take(row.index())),
            {
                assert(states@.take(row.index() + 1).drop_last() =~= states@.take(row.index()));
                match self.find_rule(TapeRuleKey::new(*symbol, *state)) {
                    Some(rule) => {
                        line.append(" ");
                        line.append(rule.to_string().as_str());
                    },
                    None => {
                        line.append("   ");
                    },
                }
            }
            assert(states@.take(states.len() as int) =~= states@);
            lines.push(line);
        }
        lines.push(String::new());
        lines
    }
}

impl Tape {
    /// The history as it is printed, line by line: each entry with the
    /// origin that is stored with it.
    pub fn render_history(&self) -> (lines: Vec<String>)
        requires
            self.wf(),
        ensures
            lines.len() == history_lines(self@.history).len(),
            forall|i: int|
                0 <= i < lines.len() ==> (#[trigger] lines[i])@ == history_lines(
                    self@.history,
                )[i],
    {
        let mut lines: Vec<String> = Vec::new();
        lines.push(String::new());
        lines.push(String::from_str("TAPE HISTORY: (zero_index from the first `1`)"));

        let longest_tape_len: usize = self.tape_history[self.tape_history.len() - 1].len();

        for index in 0..self.tape_history.len()
            invariant
                self.wf(),
                longest_tape_len == self@.history.last().cells.len(),
                lines.len() == 2 + index,
                forall|i: int|
                    0 <= i < lines.len() ==> (#[trigger] lines[i])@ == history_lines(
                        self@.history,
                    )[i],
        {
            let tape = &self.tape_history[index];
            let mut line = String::from_str("tape_");
            push_decimal(&mut line, index as u64);
            line.append(": ");

            let ghost start = line@;
            for symbol in row: tape.iter()
                invariant
                    row.seq().unref() == tape@,
                    line@ == start + cells_text(tape@.take(row.index())),
            {
                assert(tape@.take(row.index() + 1).drop_last() =~= tape@.take(row.index()));
                line.append(symbol.to_string().as_str());
            }
            assert(tape@.take(tape.len() as int) =~= tape@);
            proof {
                lemma_cells_text_len(tape@);
            }

            let mut column: usize = tape.len();
            while column < longest_tape_len
                invariant
                    tape.len() <= column,
                    column <= longest_tape_len || column == tape.len(),
                    cells_text(tape@).len() == tape.len(),
                    line@ == start + padded(cells_text(tape@), column as int),
                decreases longest_tape_len - column,
            {
                push_char(&mut line, ' ');
                column = column + 1;
            }

            line.append("  zero_index: ");
            push_decimal(&mut line, self.zero_history[index] as u64);
            lines.push(line);
        }
        lines
    }
}

} // verus!
