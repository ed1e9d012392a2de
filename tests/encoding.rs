use eye_trigrams::direction::{decimal_to_trigram_state, trigram_state_to_decimal, Direction, Trigram};
use eye_trigrams::error::DecodeError;

#[test]
fn encode_all_center_is_zero() {
    assert_eq!(trigram_state_to_decimal("ccc".to_string()), Ok(0));
}

#[test]
fn encode_all_down_is_124() {
    assert_eq!(trigram_state_to_decimal("ddd".to_string()), Ok(124));
}

#[test]
fn encode_mixed_state() {
    assert_eq!(trigram_state_to_decimal("clr".to_string()), Ok(7));
    assert_eq!(trigram_state_to_decimal("udl".to_string()), Ok(3 * 25 + 4 * 5 + 1));
}

#[test]
fn encode_rejects_unknown_symbol() {
    assert_eq!(
        trigram_state_to_decimal("cxc".to_string()),
        Err(DecodeError::UnknownDirectionSymbol)
    );
}

#[test]
fn encode_rejects_wrong_length() {
    assert_eq!(trigram_state_to_decimal("cc".to_string()), Err(DecodeError::WrongTrigramLength));
    assert_eq!(trigram_state_to_decimal("".to_string()), Err(DecodeError::WrongTrigramLength));
    assert_eq!(trigram_state_to_decimal("cccc".to_string()), Err(DecodeError::WrongTrigramLength));
}

#[test]
fn encoding_is_a_bijection() {
    let symbols = ['c', 'l', 'r', 'u', 'd'];
    let mut seen = vec![false; 125];
    for a in symbols {
        for b in symbols {
            for c in symbols {
                let s: String = [a, b, c].iter().collect();
                let code = trigram_state_to_decimal(s.clone()).unwrap();
                assert!(code < 125);
                assert!(!seen[code]);
                seen[code] = true;
                assert_eq!(decimal_to_trigram_state(code), s);
            }
        }
    }
    assert!(seen.iter().all(|b| *b));
}

#[test]
fn decoding_code_gives_its_state() {
    assert_eq!(decimal_to_trigram_state(0), "ccc");
    assert_eq!(decimal_to_trigram_state(7), "clr");
    assert_eq!(decimal_to_trigram_state(124), "ddd");
}

#[test]
fn trigram_code_and_string() {
    let t = Trigram { first: Direction::Down, second: Direction::Center, third: Direction::Up };
    assert_eq!(t.code(), 4 * 25 + 3);
    assert_eq!(t.to_state(), "dcu");
    assert_eq!(Trigram::from_code(103), t);
    assert_eq!(Trigram::blank().with_slot(1, Direction::Left).to_state(), "clc");
}

#[test]
fn direction_digits_and_symbols() {
    assert_eq!(Direction::Center.digit(), 0);
    assert_eq!(Direction::Left.digit(), 1);
    assert_eq!(Direction::Right.digit(), 2);
    assert_eq!(Direction::Up.digit(), 3);
    assert_eq!(Direction::Down.digit(), 4);
    assert_eq!(Direction::from_digit(3), Direction::Up);
    assert_eq!(Direction::from_symbol('r'), Some(Direction::Right));
    assert_eq!(Direction::from_symbol('q'), None);
}

#[test]
fn unknown_symbol_wins_over_wrong_length() {
    assert_eq!(
        trigram_state_to_decimal("cx".to_string()),
        Err(DecodeError::UnknownDirectionSymbol)
    );
    assert_eq!(
        trigram_state_to_decimal("ccccq".to_string()),
        Err(DecodeError::UnknownDirectionSymbol)
    );
    assert_eq!(
        trigram_state_to_decimal("cxq".to_string()),
        Err(DecodeError::UnknownDirectionSymbol)
    );
}
