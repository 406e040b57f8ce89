//! The machine: a rule table, a tape, a head position and a control state,
//! driven one transition at a time.

use vstd::prelude::*;
use crate::data_structs::{TapeRule, TapeRuleKey, TapeShift, TapeState, TapeSymbol};
use crate::turing_tape::{Tape, TapeView};

verus! {

/// The rule of the first entry of `rules` whose key is `key`, if there is one.
pub open spec fn first_rule(rules: Seq<(TapeRuleKey, TapeRule)>, key: TapeRuleKey) -> Option<
    TapeRule,
>
    decreases rules.len(),
{
    if rules.len() == 0 {
        None
    } else if rules[0].0 == key {
        Some(rules[0].1)
    } else {
        first_rule(rules.drop_first(), key)
    }
}

/// The mathematical machine.
pub struct TuringView {
    pub rules: Seq<(TapeRuleKey, TapeRule)>,
    pub tape: TapeView,
    pub pos: int,
    pub state: TapeState,
}

impl TuringView {
    /// A machine at its start: blank tape, head at position 0, state 0.
    pub open spec fn start(rules: Seq<(TapeRuleKey, TapeRule)>) -> TuringView {
        TuringView { rules, tape: TapeView::blank(), pos: 0, state: TapeState::State(0) }
    }

    /// The key that the next transition is looked up by.
    pub open spec fn key(self) -> TapeRuleKey {
        TapeRuleKey { symbol: self.tape.read(self.pos), state: self.state }
    }

    /// The machine after the transition that `rule` describes: the symbol is
    /// written under the head, the head moves, the state changes, and the
    /// tape is made to cover the new head position.
    pub open spec fn apply(self, rule: TapeRule) -> TuringView {
        let written = self.tape.write(self.pos, rule.symbol);
        let pos = self.pos + rule.shift.delta();
        TuringView {
            rules: self.rules,
            tape: TapeView {
                current: written.current.reach(pos, rule.shift),
                history: written.history,
            },
            pos,
            state: rule.state,
        }
    }

    /// One transition: the machine after it, or `None` where the table holds
    /// no rule for the symbol under the head and the current state.
    pub open spec fn step_once(self) -> Option<TuringView> {
        match first_rule(self.rules, self.key()) {
            Some(rule) => Some(self.apply(rule)),
            None => None,
        }
    }

    /// The machine after a run of at most `n` transitions that ends early at
    /// the first one for which no rule is found.
    pub open spec fn after(self, n: nat) -> TuringView
        decreases n,
    {
        if n == 0 {
            self
        } else {
            match self.step_once() {
                Some(next) => next.after((n - 1) as nat),
                None => self,
            }
        }
    }

    /// How many transitions such a run makes.
    pub open spec fn progress(self, n: nat) -> nat
        decreases n,
    {
        if n == 0 {
            0
        } else {
            match self.step_once() {
                Some(next) => 1 + next.progress((n - 1) as nat),
                None => 0,
            }
        }
    }

    /// The two machines agree in rule table, head position and state, and
    /// their tapes read alike at every position; how the cells are stored,
    /// and what the histories hold, may differ.
    pub open spec fn alike(self, other: TuringView) -> bool {
        &&& self.rules == other.rules
        &&& self.pos == other.pos
        &&& self.state == other.state
        &&& forall|position: int|
            (#[trigger] self.tape.read(position)) == other.tape.read(position)
    }

    /// The head position can be held in an `i32` at every point of a run of
    /// at most `n` transitions.
    pub open spec fn head_in_range(self, n: nat) -> bool {
        forall|k: nat| k <= n ==> i32::MIN <= (#[trigger] self.after(k)).pos <= i32::MAX
    }
}

/// The keys of the table that is made for a machine of `count` states, the
/// halting state counted: for each symbol in turn, one key for each working
/// state in turn. `Halt` has no key.
pub open spec fn working_keys(count: int) -> Seq<TapeRuleKey> {
    Seq::new(
        (2 * (count - 1)) as nat,
        |i: int|
            if i < count - 1 {
                TapeRuleKey { symbol: TapeSymbol::Zero, state: TapeState::State(i as u8) }
            } else {
                TapeRuleKey {
                    symbol: TapeSymbol::One,
                    state: TapeState::State((i - (count - 1)) as u8),
                }
            },
    )
}

/// `rules` is a table for a machine of `count` states: its keys are
/// `working_keys(count)`, and every rule leads to a state of that machine.
pub open spec fn is_table_for(rules: Seq<(TapeRuleKey, TapeRule)>, count: int) -> bool {
    &&& rules.len() == 2 * (count - 1)
    &&& forall|i: int|
        0 <= i < rules.len() ==> (#[trigger] rules[i]).0 == working_keys(count)[i]
            && rules[i].1.state.among(count)
}

/// No entry of `rules` has `state` in its key.
pub open spec fn unmapped(rules: Seq<(TapeRuleKey, TapeRule)>, state: TapeState) -> bool {
    forall|i: int| 0 <= i < rules.len() ==> (#[trigger] rules[i]).0.state != state
}

/// `rules` is complete for a machine of `count` states, the halting state
/// counted: every symbol and every working state has a rule, which leads to
/// a state of that machine, and `Halt` has none.
pub open spec fn is_complete(rules: Seq<(TapeRuleKey, TapeRule)>, count: int) -> bool {
    &&& unmapped(rules, TapeState::Halt)
    &&& forall|symbol: TapeSymbol, k: u8|
        k < count - 1 ==> ((#[trigger] first_rule(
            rules,
            TapeRuleKey { symbol, state: TapeState::State(k) },
        )) matches Some(rule) && rule.state.among(count))
}

/// The machine. `rules` is the rule table, in which of two entries with
/// one key the first counts; `pos` is the head position and `state` the
/// current state.
pub struct Turing {
    pub rules: Vec<(TapeRuleKey, TapeRule)>,
    pub tape: Tape,
    pub pos: i32,
    pub state: TapeState,
}

impl View for Turing {
    type V = TuringView;

    open spec fn view(&self) -> TuringView {
        TuringView { rules: self.rules@, tape: self.tape@, pos: self.pos as int, state: self.state }
    }
}

impl Turing {
    /// The machine is well formed where its tape is.
    pub open spec fn wf(&self) -> bool {
        self.tape.wf()
    }

    /// A machine at its start with the given rule table.
    pub fn new(rules: Vec<(TapeRuleKey, TapeRule)>) -> (machine: Self)
        ensures
            machine.wf(),
            machine@ == TuringView::start(rules@),
    {
        Self { rules, tape: Tape::new(), pos: 0, state: TapeState::State(0) }
    }

    /// A machine at its start with a rule table for `n` states, the halting
    /// state counted, whose rules are picked by chance.
    pub fn random(n: u8) -> (machine: Self)
        requires
            n > 0,
        ensures
            machine.wf(),
            is_table_for(machine.rules@, n as int),
            is_complete(machine.rules@, n as int),
            machine@ == TuringView::start(machine.rules@),
    {
        Self {
            rules: Self::get_random_rules(n),
            tape: Tape::new(),
            pos: 0,
            state: TapeState::State(0),
        }
    }

    /// A rule table for `n` states, the halting state counted: one entry for
    /// each symbol and each working state, none for `Halt`. The keys are
    /// fixed; the rule under each key is picked by chance and leads to a
    /// working state or to `Halt`.
    pub fn get_random_rules(n: u8) -> (rules: Vec<(TapeRuleKey, TapeRule)>)
        requires
            n > 0,
        ensures
            is_table_for(rules@, n as int),
            is_complete(rules@, n as int),
    {
        let mut rules: Vec<(TapeRuleKey, TapeRule)> = Vec::new();
        let mut states: Vec<TapeState> = Vec::new();
        let working: u8 = n - 1;
        for i in 0..working
            invariant
                states.len() == i,
                forall|j: int| 0 <= j < i ==> states[j] == TapeState::State(j as u8),
        {
            states.push(TapeState::State(i));
        }

        for symbol in symbols: TapeSymbol::iter()
            invariant
                working == n - 1,
                states.len() == working,
                forall|j: int| 0 <= j < working ==> states[j] == TapeState::State(j as u8),
                symbols.seq().unref() == TapeSymbol::all(),
                rules.len() == symbols.index() * working,
                forall|i: int|
                    0 <= i < rules.len() ==> (#[trigger] rules[i]).0 == working_keys(n as int)[i]
                        && rules[i].1.state.among(n as int),
        {
            let ghost base = rules.len();
            assert(symbols.seq().unref().len() == 2);
            for state in row: states.iter()
                invariant
                    n > 0,
                    working == n - 1,
                    states.len() == working,
                    forall|j: int| 0 <= j < working ==> states[j] == TapeState::State(j as u8),
                    row.seq().unref() == states@,
                    0 <= symbols.index() < 2,
                    *symbol == TapeSymbol::all()[symbols.index()],
                    base == symbols.index() * working,
                    rules.len() == base + row.index(),
                    forall|i: int|
                        0 <= i < rules.len() ==> (#[trigger] rules[i]).0 == working_keys(
                            n as int,
                        )[i] && rules[i].1.state.among(n as int),
            {
                assert(*state == states@[row.index()]);
                let key = TapeRuleKey::new(*symbol, *state);

                let instruction = TapeRule::new(
                    TapeSymbol::random(),
                    TapeShift::random(),
                    TapeState::random(n),
                );

                rules.push((key, instruction));
            }
            assert((symbols.index() + 1) * working == symbols.index() * working + working)
                by (nonlinear_arith);
        }
        proof {
            law_table_is_complete(rules@, n as int);
        }

        rules
    }

    /// Looks a key up in the rule table; of several entries with the same
    /// key the first one counts.
    pub fn find_rule(&self, key: TapeRuleKey) -> (found: Option<TapeRule>)
        ensures
            found == first_rule(self.rules@, key),
    {
        let mut i: usize = 0;
        assert(self.rules@.skip(0) =~= self.rules@);
        while i < self.rules.len()
            invariant
                i <= self.rules.len(),
                first_rule(self.rules@, key) == first_rule(self.rules@.skip(i as int), key),
            decreases self.rules.len() - i,
        {
            if self.rules[i].0 == key {
                return Some(self.rules[i].1);
            }
            assert(self.rules@.skip(i as int).drop_first() =~= self.rules@.skip(i + 1));
            i = i + 1;
        }
        None
    }

    /// Runs the machine for at most `num_steps` transitions and stops at the
    /// first one for which the table holds no rule. `Ok` carries the number
    /// of transitions where all were made, `Err` the number made before the
    /// one that found no rule.
    pub fn step(&mut self, num_steps: u8) -> (result: Result<u8, u8>)
        requires
            old(self).wf(),
            old(self)@.head_in_range(num_steps as nat),
        ensures
            final(self).wf(),
            final(self)@ == old(self)@.after(num_steps as nat),
            final(self).rules@ == old(self).rules@,
            final(self).tape.tape_history.len() == old(self).tape.tape_history.len() + old(
                self,
            )@.progress(num_steps as nat),
            final(self).tape.zero_history.len() == old(self).tape.zero_history.len() + old(
                self,
            )@.progress(num_steps as nat),
            match result {
                Ok(steps) => steps == num_steps && old(self)@.progress(num_steps as nat)
                    == num_steps,
                Err(steps) => steps < num_steps && old(self)@.progress(num_steps as nat) == steps,
            },
    {
        let mut steps: u8 = 0;
        for i in 0..num_steps
            invariant
                self.wf(),
                steps == i,
                self.rules@ == old(self).rules@,
                self.tape.tape_history.len() == old(self).tape.tape_history.len() + i,
                self.tape.zero_history.len() == old(self).tape.zero_history.len() + i,
                self@.head_in_range((num_steps - i) as nat),
                old(self)@.after(num_steps as nat) == self@.after((num_steps - i) as nat),
                old(self)@.progress(num_steps as nat) == i + self@.progress(
                    (num_steps - i) as nat,
                ),
        {
            let ghost before = self@;
            let ghost left = (num_steps - i) as nat;
            match self.step_once() {
                Ok(_) => {
                    assert(self@.head_in_range((left - 1) as nat)) by {
                        assert forall|k: nat| k <= left - 1 implies i32::MIN <= (
                        #[trigger] self@.after(k)).pos <= i32::MAX by {
                            assert(before.after(k + 1) == self@.after(k));
                        }
                    }
                    steps += 1;
                },
                Err(_) => {
                    return Err(steps);
                },
            }
        }
        Ok(steps)
    }

    /// Makes one transition: reads the symbol under the head, looks up the
    /// rule for it and the current state, writes the rule's symbol, moves
    /// the head by one cell and enters the rule's state; where the head
    /// leaves the stored cells, the tape is grown to hold it. Fails, and
    /// changes nothing, where the table holds no rule for the key.
    pub fn step_once(&mut self) -> (result: Result<(), ()>)
        requires
            old(self).wf(),
            old(self)@.head_in_range(1),
        ensures
            final(self).wf(),
            match old(self)@.step_once() {
                Some(next) => {
                    &&& result is Ok
                    &&& final(self)@ == next
                    &&& final(self).tape.tape_history.len() == old(self).tape.tape_history.len()
                        + 1
                    &&& final(self).tape.zero_history.len() == old(self).tape.zero_history.len()
                        + 1
                },
                None => result is Err && *final(self) == *old(self),
            },
    {
        let symbol = self.tape.get(self.pos);
        let key = TapeRuleKey::new(symbol, self.state);
        let rule = match self.find_rule(key) {
            Some(rule) => rule,
            None => {
                return Err(());
            },
        };
        assert(old(self)@.after(1) == old(self)@.apply(rule)) by {
            reveal_with_fuel(TuringView::after, 2);
        }

        self.tape.set(self.pos, rule.symbol);
        self.pos = self.pos + match rule.shift {
            TapeShift::Right => 1,
            TapeShift::Left => -1,
        };
        self.state = rule.state;

        let index: i64 = self.pos as i64 + self.tape.zero_index as i64;
        if index < 0 || index as u64 >= self.tape.tape.len() as u64 {
            Tape::grow(&mut self.tape.tape, 1, rule.shift);
            if rule.shift == TapeShift::Left {
                self.tape.zero_index = self.tape.zero_index + 1;
            }
        }
        Ok(())
    }
}

/// `first_rule` finds a rule exactly when some entry has the key, and the
/// rule it finds is that of the entry with the key that comes first.
pub proof fn law_first_rule(rules: Seq<(TapeRuleKey, TapeRule)>, key: TapeRuleKey)
    ensures
        match first_rule(rules, key) {
            Some(rule) => exists|i: int|
                0 <= i < rules.len() && #[trigger] rules[i] == (key, rule) && forall|j: int|
                    0 <= j < i ==> (#[trigger] rules[j]).0 != key,
            None => forall|i: int| 0 <= i < rules.len() ==> (#[trigger] rules[i]).0 != key,
        },
    decreases rules.len(),
{
    if rules.len() > 0 && rules[0].0 != key {
        let rest = rules.drop_first();
        law_first_rule(rest, key);
        match first_rule(rest, key) {
            Some(rule) => {
                let i = choose|i: int|
                    0 <= i < rest.len() && #[trigger] rest[i] == (key, rule) && forall|j: int|
                        0 <= j < i ==> (#[trigger] rest[j]).0 != key;
                assert forall|j: int| 0 <= j < i + 1 implies (#[trigger] rules[j]).0 != key by {
                    if j > 0 {
                        assert(rest[j - 1] == rules[j]);
                    }
                }
            },
            None => {
                assert forall|i: int| 0 <= i < rules.len() implies (#[trigger] rules[i]).0
                    != key by {
                    if i > 0 {
                        assert(rest[i - 1] == rules[i]);
                    }
                }
            },
        }
    }
}

/// A transition writes the rule's symbol where the head stood and leaves
/// every other position as it read before; the head moves by one cell and
/// then stands on a stored cell; the history gains the tape as written.
pub proof fn law_transition(machine: TuringView, position: int)
    requires
        machine.step_once() is Some,
    ensures
        ({
            let rule = first_rule(machine.rules, machine.key())->0;
            let next = machine.step_once()->0;
            &&& next.tape.read(position) == if position == machine.pos {
                rule.symbol
            } else {
                machine.tape.read(position)
            }
            &&& next.pos == machine.pos + rule.shift.delta()
            &&& next.state == rule.state
            &&& next.rules == machine.rules
            &&& 0 <= next.pos + next.tape.current.origin < next.tape.current.cells.len()
            &&& next.tape.history == machine.tape.history.push(
                machine.tape.current.write(machine.pos, rule.symbol),
            )
        }),
{
}

/// Two runs over the same number of transitions from machines that agree in
/// rule table, tape, head position and state end in machines that agree, after
/// the same number of transitions made.
pub proof fn law_deterministic(first: TuringView, second: TuringView, n: nat)
    requires
        first.rules == second.rules,
        first.tape == second.tape,
        first.pos == second.pos,
        first.state == second.state,
    ensures
        first.after(n) == second.after(n),
        first.progress(n) == second.progress(n),
{
}

/// Machines that are alike run alike: over the same number of transitions
/// they make the same number of them and are alike afterwards.
pub proof fn law_alike_machines_run_alike(first: TuringView, second: TuringView, n: nat)
    requires
        first.alike(second),
    ensures
        first.progress(n) == second.progress(n),
        first.after(n).alike(second.after(n)),
    decreases n,
{
    if n > 0 {
        assert(first.key() == second.key());
        if first.step_once() is Some {
            let a = first.step_once()->0;
            let b = second.step_once()->0;
            assert forall|position: int| (#[trigger] a.tape.read(position)) == b.tape.read(
                position,
            ) by {
                law_transition(first, position);
                law_transition(second, position);
                assert(first.tape.read(position) == second.tape.read(position));
            }
            law_alike_machines_run_alike(a, b, (n - 1) as nat);
        }
    }
}

/// A run never makes more transitions than it was given.
pub proof fn law_progress_bounded(machine: TuringView, n: nat)
    ensures
        machine.progress(n) <= n,
    decreases n,
{
    if n > 0 && machine.step_once() is Some {
        law_progress_bounded(machine.step_once()->0, (n - 1) as nat);
    }
}

/// A run of no transitions makes none and leaves the machine as it is.
pub proof fn law_zero_steps(machine: TuringView)
    ensures
        machine.progress(0) == 0,
        machine.after(0) == machine,
{
}

/// Where the table holds no rule for the symbol under the head and the
/// current state, the first transition fails: a run of any length makes no
/// transition and leaves the machine as it is.
pub proof fn law_missing_rule_stops(machine: TuringView, n: nat)
    requires
        forall|i: int|
            0 <= i < machine.rules.len() ==> (#[trigger] machine.rules[i]).0 != machine.key(),
    ensures
        machine.step_once() is None,
        machine.progress(n) == 0,
        machine.after(n) == machine,
{
    law_first_rule(machine.rules, machine.key());
}

/// A run leaves the rule table as it is.
pub proof fn law_run_keeps_rules(machine: TuringView, n: nat)
    ensures
        machine.after(n).rules == machine.rules,
    decreases n,
{
    if n > 0 && machine.step_once() is Some {
        law_run_keeps_rules(machine.step_once()->0, (n - 1) as nat);
    }
}

/// Each transition makes one write: a run adds to the history as many
/// entries as it makes transitions, and leaves the earlier ones as they are.
pub proof fn law_run_extends_history(machine: TuringView, n: nat)
    ensures
        machine.after(n).tape.history.len() == machine.tape.history.len() + machine.progress(n),
        machine.after(n).tape.history.take(machine.tape.history.len() as int)
            == machine.tape.history,
    decreases n,
{
    let before = machine.tape.history;
    if n > 0 && machine.step_once() is Some {
        let next = machine.step_once()->0;
        law_run_extends_history(next, (n - 1) as nat);
        assert(next.tape.history.take(before.len() as int) =~= before);
        assert(machine.after(n).tape.history.take(before.len() as int)
            =~= machine.after(n).tape.history.take(next.tape.history.len() as int).take(
            before.len() as int,
        ));
    } else {
        assert(before.take(before.len() as int) =~= before);
    }
}

/// A run split in two: where the first `a` transitions are all made, going
/// on for `b` more from there is the run of `a + b`.
pub proof fn law_run_splits(machine: TuringView, a: nat, b: nat)
    requires
        machine.progress(a) == a,
    ensures
        machine.after(a + b) == machine.after(a).after(b),
        machine.progress(a + b) == a + machine.after(a).progress(b),
    decreases a,
{
    if a > 0 {
        let next = machine.step_once()->0;
        law_run_splits(next, (a - 1) as nat, b);
    }
}

/// A machine whose table has no entry for `Halt` and that enters `Halt` with
/// its `m`-th transition stops there: asked for more than `m` transitions it
/// makes `m` and ends early, asked for `n <= m` it makes all `n`.
pub proof fn law_halting_run(machine: TuringView, m: nat, n: nat)
    requires
        unmapped(machine.rules, TapeState::Halt),
        machine.progress(m) == m,
        machine.after(m).state == TapeState::Halt,
    ensures
        n <= m ==> machine.progress(n) == n,
        n > m ==> machine.progress(n) == m && machine.after(n) == machine.after(m),
    decreases m,
{
    if n == 0 {
    } else if m == 0 {
        law_missing_rule_stops(machine, n);
    } else {
        let next = machine.step_once()->0;
        law_halting_run(next, (m - 1) as nat, (n - 1) as nat);
    }
}

/// A machine that runs on a complete table, from a state of the machine the
/// table is for, stays among these states, and a run of it ends early only
/// in `Halt`.
pub proof fn law_complete_table_stops_at_halt(machine: TuringView, count: int, n: nat)
    requires
        is_complete(machine.rules, count),
        machine.state.among(count),
    ensures
        machine.after(n).state.among(count),
        machine.progress(n) < n ==> machine.after(n).state == TapeState::Halt,
    decreases n,
{
    if n > 0 {
        match machine.state {
            TapeState::State(k) => {
                let key = TapeRuleKey { symbol: machine.key().symbol, state: TapeState::State(k) };
                assert(first_rule(machine.rules, key) is Some);
                law_complete_table_stops_at_halt(
                    machine.step_once()->0,
                    count,
                    (n - 1) as nat,
                );
            },
            TapeState::Halt => {
                law_missing_rule_stops(machine, n);
            },
        }
    }
}

/// A machine that runs on a complete table, from a state of the machine the
/// table is for, makes every transition of a run during which it is not in
/// `Halt` before any of them.
pub proof fn law_complete_table_runs_until_halt(machine: TuringView, count: int, n: nat)
    requires
        is_complete(machine.rules, count),
        machine.state.among(count),
        forall|k: nat| k < n ==> (#[trigger] machine.after(k)).state != TapeState::Halt,
    ensures
        machine.progress(n) == n,
    decreases n,
{
    if n > 0 {
        assert(machine.after(0).state != TapeState::Halt);
        match machine.state {
            TapeState::State(k) => {
                let key = TapeRuleKey { symbol: machine.key().symbol, state: TapeState::State(k) };
                assert(first_rule(machine.rules, key) is Some);
                let next = machine.step_once()->0;
                assert forall|j: nat| j < n - 1 implies (#[trigger] next.after(j)).state
                    != TapeState::Halt by {
                    assert(machine.after(j + 1) == next.after(j));
                }
                law_complete_table_runs_until_halt(next, count, (n - 1) as nat);
            },
            TapeState::Halt => {},
        }
    }
}

/// The head moves by one cell with each transition, so after a run of `n` it
/// stands within `n` cells of where it started.
pub proof fn law_head_stays_near(machine: TuringView, n: nat)
    ensures
        machine.pos - n <= machine.after(n).pos <= machine.pos + n,
    decreases n,
{
    if n > 0 && machine.step_once() is Some {
        law_head_stays_near(machine.step_once()->0, (n - 1) as nat);
    }
}

/// A machine whose head stands at least `n` cells inside the range of `i32`
/// keeps it in that range over a run of `n` transitions.
pub proof fn law_head_in_range(machine: TuringView, n: nat)
    requires
        i32::MIN + n <= machine.pos <= i32::MAX - n,
    ensures
        machine.head_in_range(n),
{
    assert forall|k: nat| k <= n implies i32::MIN <= (#[trigger] machine.after(k)).pos
        <= i32::MAX by {
        law_head_stays_near(machine, k);
    }
}

/// A table for a machine of `count` states is complete for it: every symbol
/// and every working state has a rule, which leads to a state of that
/// machine, and `Halt` has none.
pub proof fn law_table_is_complete(rules: Seq<(TapeRuleKey, TapeRule)>, count: int)
    requires
        0 < count <= 256,
        is_table_for(rules, count),
    ensures
        is_complete(rules, count),
{
    assert forall|i: int| 0 <= i < rules.len() implies (#[trigger] rules[i]).0.state
        != TapeState::Halt by {
        assert(rules[i].0 == working_keys(count)[i]);
    }
    assert forall|symbol: TapeSymbol, k: u8| k < count - 1 implies ((#[trigger] first_rule(
        rules,
        TapeRuleKey { symbol, state: TapeState::State(k) },
    )) matches Some(rule) && rule.state.among(count)) by {
        let key = TapeRuleKey { symbol, state: TapeState::State(k) };
        let i = match symbol {
            TapeSymbol::Zero => k as int,
            TapeSymbol::One => count - 1 + k,
        };
        assert(rules[i].0 == working_keys(count)[i]);
        assert(rules[i].0 == key);
        law_first_rule(rules, key);
    }
}

} // verus!
