//! The shared data model: symbols, head shifts, control states and rules.

use std::slice::Iter;
use vstd::prelude::*;
use vstd::std_specs::iter::IteratorSpec;
use vstd::std_specs::slice::into_iter_elts;
use vstd::string::StringExecFns;
use crate::text::{decimal, push_char, push_decimal};

verus! {

/// The alphabet, as `TapeSymbol::iter` walks it.
const SYMBOLS: [TapeSymbol; 2] = [TapeSymbol::Zero, TapeSymbol::One];

/// The directions, as `TapeShift::iter` walks them.
const SHIFTS: [TapeShift; 2] = [TapeShift::Right, TapeShift::Left];

/// The value of one tape cell. `Zero` is the blank symbol.
#[derive(Debug, Clone, Copy, PartialEq, Eq, Hash, Structural)]
pub enum TapeSymbol {
    Zero,
    One,
}

/// The direction in which the head moves after a transition.
#[derive(Debug, Clone, Copy, PartialEq, Eq, Structural)]
pub enum TapeShift {
    Right,
    Left,
}

/// A control state: a numbered working state, or the halting state.
#[derive(Debug, Clone, Copy, PartialEq, Eq, Hash, Structural)]
pub enum TapeState {
    State(u8),
    Halt,
}

/// What a transition does: the symbol to write, the way to move and the state
/// to enter.
#[derive(Debug, Clone, Copy, PartialEq, Eq, Structural)]
pub struct TapeRule {
    pub symbol: TapeSymbol,
    pub shift: TapeShift,
    pub state: TapeState,
}

/// What a transition is looked up by: the symbol under the head and the
/// current state.
#[derive(Debug, Clone, Copy, PartialEq, Eq, Hash, Structural)]
pub struct TapeRuleKey {
    pub symbol: TapeSymbol,
    pub state: TapeState,
}

impl TapeSymbol {
    /// The alphabet, in the order in which `iter` walks it.
    pub open spec fn all() -> Seq<TapeSymbol> {
        seq![TapeSymbol::Zero, TapeSymbol::One]
    }

    /// The symbol as it is printed: `0` or `1`.
    pub open spec fn text(self) -> Seq<char> {
        match self {
            TapeSymbol::Zero => seq!['0'],
            TapeSymbol::One => seq!['1'],
        }
    }

    /// The symbol as text.
    pub fn to_string(&self) -> (text: String)
        ensures
            text@ == self.text(),
    {
        proof {
            reveal_strlit("0");
            reveal_strlit("1");
        }
        let text = match self {
            Self::Zero => String::from_str("0"),
            Self::One => String::from_str("1"),
        };
        text
    }

    /// The symbol that a drawn bit stands for.
    pub fn from_draw(draw: bool) -> (symbol: Self)
        ensures
            symbol == if draw {
                TapeSymbol::One
            } else {
                TapeSymbol::Zero
            },
    {
        match draw {
            false => Self::Zero,
            true => Self::One,
        }
    }

    /// A symbol picked by chance.
    pub fn random() -> Self {
        Self::from_draw(rand::random::<bool>())
    }

    /// Walks the alphabet: the iterator hands out the symbols of `all()` in
    /// their order. The other two clauses are what a `for` loop in verified
    /// code asks of an iterator.
    pub fn iter() -> (symbols: Iter<'static, Self>)
        ensures
            into_iter_elts(symbols) == Self::all(),
            IteratorSpec::decrease(&symbols) is Some,
            IteratorSpec::initial_value_relation(&symbols, &symbols),
    {
        SYMBOLS.iter()
    }
}

impl TapeShift {
    /// Both directions, in the order in which `iter` walks them.
    pub open spec fn all() -> Seq<TapeShift> {
        seq![TapeShift::Right, TapeShift::Left]
    }

    /// The change of the head position that this shift stands for.
    pub open spec fn delta(self) -> int {
        match self {
            TapeShift::Right => 1,
            TapeShift::Left => -1,
        }
    }

    /// The direction as it is printed: `R` or `L`.
    pub open spec fn text(self) -> Seq<char> {
        match self {
            TapeShift::Right => seq!['R'],
            TapeShift::Left => seq!['L'],
        }
    }

    /// The direction as text.
    pub fn to_string(&self) -> (text: String)
        ensures
            text@ == self.text(),
    {
        proof {
            reveal_strlit("R");
            reveal_strlit("L");
        }
        let text = match self {
            Self::Right => String::from_str("R"),
            Self::Left => String::from_str("L"),
        };
        text
    }

    /// The direction that a drawn bit stands for.
    pub fn from_draw(draw: bool) -> (shift: Self)
        ensures
            shift == if draw {
                TapeShift::Left
            } else {
                TapeShift::Right
            },
    {
        match draw {
            false => Self::Right,
            true => Self::Left,
        }
    }

    /// A direction picked by chance.
    pub fn random() -> Self {
        Self::from_draw(rand::random::<bool>())
    }

    /// Walks both directions: the iterator hands out the shifts of `all()`
    /// in their order. The other two clauses are what a `for` loop in
    /// verified code asks of an iterator.
    pub fn iter() -> (shifts: Iter<'static, Self>)
        ensures
            into_iter_elts(shifts) == Self::all(),
            IteratorSpec::decrease(&shifts) is Some,
            IteratorSpec::initial_value_relation(&shifts, &shifts),
    {
        SHIFTS.iter()
    }
}

impl TapeState {
    /// The state belongs to a machine of `count` states, the halting state
    /// counted: it is `Halt`, or `State(k)` with `k` below `count - 1`.
    pub open spec fn among(self, count: int) -> bool {
        match self {
            TapeState::State(k) => k < count - 1,
            TapeState::Halt => true,
        }
    }

    /// The state as it is printed: the first 26 working states by the small
    /// letters from `a` on, the others by their number, the halting state by
    /// `H`.
    pub open spec fn text(self) -> Seq<char> {
        match self {
            TapeState::State(k) => if k < 26 {
                seq![('a' as int + k) as char]
            } else {
                decimal(k as nat)
            },
            TapeState::Halt => seq!['H'],
        }
    }

    /// The state as text.
    pub fn to_string(&self) -> (text: String)
        ensures
            text@ == self.text(),
    {
        let mut text = String::new();
        match self {
            Self::State(k) => {
                if *k < 26 {
                    push_char(&mut text, ('a' as u8 + *k) as char);
                } else {
                    push_decimal(&mut text, *k as u64);
                }
            },
            Self::Halt => {
                push_char(&mut text, 'H');
            },
        }
        text
    }

    /// The state of a machine of `count` states that a drawn number stands
    /// for: the number is reduced modulo `count`, and the largest remainder
    /// is `Halt`.
    pub open spec fn pick(draw: u8, count: u8) -> TapeState {
        let m = draw % count;
        if m < count - 1 {
            TapeState::State(m)
        } else {
            TapeState::Halt
        }
    }

    /// The state of a machine of `n` states, the halting state counted, that
    /// a drawn number stands for.
    pub fn from_draw(draw: u8, n: u8) -> (state: Self)
        requires
            n > 0,
        ensures
            state == Self::pick(draw, n),
            state.among(n as int),
    {
        let m: u8 = draw % n;
        if m < n - 1 {
            Self::State(m)
        } else {
            Self::Halt
        }
    }

    /// A state of a machine of `n` states, the halting state counted, picked
    /// by chance.
    pub fn random(n: u8) -> (state: Self)
        requires
            n > 0,
        ensures
            state.among(n as int),
    {
        Self::from_draw(rand::random::<u8>(), n)
    }
}

impl TapeRule {
    /// The rule made of its three parts.
    pub fn new(symbol: TapeSymbol, shift: TapeShift, state: TapeState) -> (rule: Self)
        ensures
            rule == (TapeRule { symbol, shift, state }),
    {
        Self { symbol, shift, state }
    }

    /// The rule as it is printed: symbol, direction, state.
    pub open spec fn text(self) -> Seq<char> {
        self.symbol.text() + self.shift.text() + self.state.text()
    }

    /// The rule as text.
    pub fn to_string(&self) -> (text: String)
        ensures
            text@ == self.text(),
    {
        let mut text = self.symbol.to_string();
        text.append(self.shift.to_string().as_str());
        text.append(self.state.to_string().as_str());
        text
    }
}

impl TapeRuleKey {
    /// The key made of its two parts.
    pub fn new(symbol: TapeSymbol, state: TapeState) -> (key: Self)
        ensures
            key == (TapeRuleKey { symbol, state }),
    {
        Self { symbol, state }
    }

    /// The key as it is printed: symbol, state.
    pub open spec fn text(self) -> Seq<char> {
        self.symbol.text() + self.state.text()
    }

    /// The key as text.
    pub fn to_string(&self) -> (text: String)
        ensures
            text@ == self.text(),
    {
        let mut text = self.symbol.to_string();
        text.append(self.state.to_string().as_str());
        text
    }
}

} // verus!
