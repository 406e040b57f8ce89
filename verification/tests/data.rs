use turing_sim::data_structs::{TapeRule, TapeRuleKey, TapeShift, TapeState, TapeSymbol};
use turing_sim::text::push_decimal;

#[test]
fn symbol_from_draw() {
    assert_eq!(TapeSymbol::from_draw(false), TapeSymbol::Zero);
    assert_eq!(TapeSymbol::from_draw(true), TapeSymbol::One);
}

#[test]
fn shift_from_draw() {
    assert_eq!(TapeShift::from_draw(false), TapeShift::Right);
    assert_eq!(TapeShift::from_draw(true), TapeShift::Left);
}

#[test]
fn state_from_draw_reduces_modulo_the_count() {
    assert_eq!(TapeState::from_draw(0, 3), TapeState::State(0));
    assert_eq!(TapeState::from_draw(1, 3), TapeState::State(1));
    assert_eq!(TapeState::from_draw(2, 3), TapeState::Halt);
    assert_eq!(TapeState::from_draw(7, 3), TapeState::State(1));
    assert_eq!(TapeState::from_draw(5, 3), TapeState::Halt);
    assert_eq!(TapeState::from_draw(255, 3), TapeState::State(0));
}

#[test]
fn state_from_draw_with_one_state_is_halt() {
    for draw in 0..=255u8 {
        assert_eq!(TapeState::from_draw(draw, 1), TapeState::Halt);
    }
}

#[test]
fn state_from_draw_with_the_largest_count() {
    assert_eq!(TapeState::from_draw(255, 255), TapeState::State(0));
    assert_eq!(TapeState::from_draw(254, 255), TapeState::Halt);
    assert_eq!(TapeState::from_draw(253, 255), TapeState::State(253));
}

#[test]
fn random_state_belongs_to_the_machine() {
    for n in [1u8, 2, 3, 7, 255] {
        for _ in 0..200 {
            match TapeState::random(n) {
                TapeState::State(k) => assert!(k < n - 1),
                TapeState::Halt => {}
            }
        }
    }
}

#[test]
fn random_state_of_a_machine_of_one_state_is_halt() {
    for _ in 0..50 {
        assert_eq!(TapeState::random(1), TapeState::Halt);
    }
}

#[test]
fn random_symbol_and_shift_are_of_their_kind() {
    for _ in 0..50 {
        let symbol = TapeSymbol::random();
        assert!(symbol == TapeSymbol::Zero || symbol == TapeSymbol::One);
        let shift = TapeShift::random();
        assert!(shift == TapeShift::Right || shift == TapeShift::Left);
    }
}

#[test]
fn symbols_are_walked_zero_first() {
    let symbols: Vec<TapeSymbol> = TapeSymbol::iter().cloned().collect();
    assert_eq!(symbols, vec![TapeSymbol::Zero, TapeSymbol::One]);
}

#[test]
fn shifts_are_walked_right_first() {
    let shifts: Vec<TapeShift> = TapeShift::iter().cloned().collect();
    assert_eq!(shifts, vec![TapeShift::Right, TapeShift::Left]);
}

#[test]
fn rule_new_keeps_its_parts() {
    let rule = TapeRule::new(TapeSymbol::One, TapeShift::Left, TapeState::State(4));
    assert_eq!(rule.symbol, TapeSymbol::One);
    assert_eq!(rule.shift, TapeShift::Left);
    assert_eq!(rule.state, TapeState::State(4));
}

#[test]
fn rule_key_new_keeps_its_parts() {
    let key = TapeRuleKey::new(TapeSymbol::Zero, TapeState::Halt);
    assert_eq!(key.symbol, TapeSymbol::Zero);
    assert_eq!(key.state, TapeState::Halt);
    assert_eq!(key, TapeRuleKey { symbol: TapeSymbol::Zero, state: TapeState::Halt });
    assert_ne!(key, TapeRuleKey::new(TapeSymbol::One, TapeState::Halt));
    assert_ne!(key, TapeRuleKey::new(TapeSymbol::Zero, TapeState::State(0)));
}

#[test]
fn symbol_as_printed() {
    assert_eq!(TapeSymbol::Zero.to_string(), "0");
    assert_eq!(TapeSymbol::One.to_string(), "1");
}

#[test]
fn shift_as_printed() {
    assert_eq!(TapeShift::Right.to_string(), "R");
    assert_eq!(TapeShift::Left.to_string(), "L");
}

#[test]
fn state_as_printed() {
    assert_eq!(TapeState::State(0).to_string(), "a");
    assert_eq!(TapeState::State(1).to_string(), "b");
    assert_eq!(TapeState::State(25).to_string(), "z");
    assert_eq!(TapeState::State(26).to_string(), "26");
    assert_eq!(TapeState::State(100).to_string(), "100");
    assert_eq!(TapeState::State(109).to_string(), "109");
    assert_eq!(TapeState::State(255).to_string(), "255");
    assert_eq!(TapeState::Halt.to_string(), "H");
}

#[test]
fn rule_as_printed() {
    let rule = TapeRule::new(TapeSymbol::One, TapeShift::Right, TapeState::State(1));
    assert_eq!(rule.to_string(), "1Rb");
    let rule = TapeRule::new(TapeSymbol::Zero, TapeShift::Left, TapeState::Halt);
    assert_eq!(rule.to_string(), "0LH");
    let rule = TapeRule::new(TapeSymbol::Zero, TapeShift::Left, TapeState::State(31));
    assert_eq!(rule.to_string(), "0L31");
}

#[test]
fn rule_key_as_printed() {
    assert_eq!(TapeRuleKey::new(TapeSymbol::One, TapeState::State(2)).to_string(), "1c");
    assert_eq!(TapeRuleKey::new(TapeSymbol::Zero, TapeState::Halt).to_string(), "0H");
}

#[test]
fn decimal_is_appended() {
    let mut text = String::from("n=");
    push_decimal(&mut text, 0);
    assert_eq!(text, "n=0");
    push_decimal(&mut text, 9);
    push_decimal(&mut text, 10);
    push_decimal(&mut text, 4070);
    assert_eq!(text, "n=09104070");
    let mut text = String::new();
    push_decimal(&mut text, u64::MAX);
    assert_eq!(text, "18446744073709551615");
}
