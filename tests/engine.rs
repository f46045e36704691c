use sanuli::evaluate::{classify_position, classify_positions, reveal_guess};
use sanuli::hints::{map_current_row, map_guess_row, map_keyboard_state};
use sanuli::knowledge::{add_char, contains_char, count_of, CharacterState, Hint, RoundKnowledge};

fn w(s: &str) -> Vec<char> {
    s.chars().collect()
}

fn revealed(secret: &str, guess: &str) -> (RoundKnowledge, Vec<char>) {
    let mut round = RoundKnowledge::new();
    let mut discovered = Vec::new();
    reveal_guess(&mut round, &mut discovered, &w(secret), &w(guess));
    (round, discovered)
}

#[test]
fn classify_positions_marks_matching_letters() {
    assert_eq!(
        classify_positions(&w("AVAIN"), &w("AIVAN")),
        vec![
            CharacterState::Correct,
            CharacterState::Absent,
            CharacterState::Absent,
            CharacterState::Absent,
            CharacterState::Correct
        ]
    );
    assert_eq!(classify_positions(&w("KOIRA"), &w("KOIRA")), vec![CharacterState::Correct; 5]);
    assert_eq!(classify_positions(&w("KOIRA"), &w("SUDET")), vec![CharacterState::Absent; 5]);
    assert_eq!(classify_position(&w("KOIRA"), &w("KISSA"), 0), CharacterState::Correct);
    assert_eq!(classify_position(&w("KOIRA"), &w("KISSA"), 1), CharacterState::Absent);
}

#[test]
fn correct_marks_never_exceed_length() {
    for (secret, guess) in [("AVAIN", "AIVAN"), ("KOIRA", "KOIRA"), ("KOIRA", "AAAAA")] {
        let marks = classify_positions(&w(secret), &w(guess));
        let correct = marks.iter().filter(|m| **m == CharacterState::Correct).count();
        assert!(correct <= secret.chars().count());
    }
}

#[test]
fn repeated_letter_tie_break() {
    let (round, discovered) = revealed("AVAIN", "AIVAN");
    assert_eq!(round.state_of('A', 0), Some(CharacterState::Correct));
    assert_eq!(round.state_of('I', 1), Some(CharacterState::Absent));
    assert_eq!(round.state_of('V', 2), Some(CharacterState::Absent));
    assert_eq!(round.state_of('A', 3), Some(CharacterState::Absent));
    assert_eq!(round.state_of('N', 4), Some(CharacterState::Correct));
    assert_eq!(round.at_least_of('A'), Some(2));
    assert_eq!(round.at_least_of('V'), Some(1));
    assert_eq!(round.at_least_of('I'), Some(1));
    assert_eq!(round.at_least_of('N'), None);
    let row = map_guess_row(&round, &w("AIVAN"), 5);
    assert_eq!(
        row,
        vec![
            Some(Hint::Correct),
            Some(Hint::Present),
            Some(Hint::Present),
            Some(Hint::Present),
            Some(Hint::Correct)
        ]
    );
    assert_eq!(row.iter().filter(|h| **h == Some(Hint::Present) ).count(), 3);
    for c in ['A', 'I', 'V'] {
        assert!(discovered.contains(&c));
    }
    assert!(!discovered.contains(&'N'));
}

#[test]
fn extra_copies_beyond_the_bound_are_absent() {
    let (round, _) = revealed("KOIRA", "ALASA");
    assert_eq!(round.at_least_of('A'), Some(1));
    assert_eq!(
        map_guess_row(&round, &w("ALASA"), 5),
        vec![
            Some(Hint::Absent),
            Some(Hint::Absent),
            Some(Hint::Absent),
            Some(Hint::Absent),
            Some(Hint::Correct)
        ]
    );
}

#[test]
fn earliest_copy_wins_present() {
    let (round, _) = revealed("KOIRA", "AAAKK");
    assert_eq!(
        map_guess_row(&round, &w("AAAKK"), 5),
        vec![
            Some(Hint::Present),
            Some(Hint::Absent),
            Some(Hint::Absent),
            Some(Hint::Present),
            Some(Hint::Absent)
        ]
    );
}

#[test]
fn guess_row_pads_with_none() {
    let (round, _) = revealed("AVAIN", "AIVAN");
    assert_eq!(map_guess_row(&round, &w("AI"), 5), vec![Some(Hint::Correct), Some(Hint::Present), None, None, None]);
    let empty = RoundKnowledge::new();
    assert_eq!(map_guess_row(&empty, &w("AIVAN"), 5), vec![None; 5]);
}

#[test]
fn bound_rises_to_copies_in_guess_when_fewer() {
    let (round, _) = revealed("AAAXY", "BAAAA");
    // the guess holds four copies, the word three: the bound is three
    assert_eq!(round.at_least_of('A'), Some(3));
    let (round, _) = revealed("XAAAY", "AQQQQ");
    // one copy in the guess, three in the word: the bound is one
    assert_eq!(round.at_least_of('A'), Some(1));
}

#[test]
fn bound_never_decreases() {
    let mut round = RoundKnowledge::new();
    let mut discovered = Vec::new();
    let secret = w("AAAXY");
    reveal_guess(&mut round, &mut discovered, &secret, &w("BAAAA"));
    assert_eq!(round.at_least_of('A'), Some(3));
    reveal_guess(&mut round, &mut discovered, &secret, &w("QAQQQ"));
    assert_eq!(round.at_least_of('A'), Some(3));
}

#[test]
fn missing_letter_is_absent_everywhere() {
    let (round, discovered) = revealed("AVAIN", "KOIRA");
    assert_eq!(round.state_of('K', 0), Some(CharacterState::Absent));
    assert_eq!(round.at_least_of('K'), None);
    assert!(!discovered.contains(&'K'));
    assert!(!discovered.contains(&'O'));
    assert!(!discovered.contains(&'R'));
    for i in 0..5 {
        assert_eq!(map_current_row(&round, &discovered, 'K', i), Some(Hint::Absent));
    }
    assert_eq!(map_keyboard_state(&round, &discovered, 'K'), Some(Hint::Absent));
}

#[test]
fn current_tile_hints() {
    let (round, discovered) = revealed("AVAIN", "AIVAN");
    assert_eq!(map_current_row(&round, &discovered, 'A', 0), Some(Hint::Correct));
    assert_eq!(map_current_row(&round, &discovered, 'A', 1), Some(Hint::Present));
    assert_eq!(map_current_row(&round, &discovered, 'I', 1), Some(Hint::Present));
    assert_eq!(map_current_row(&round, &discovered, 'Z', 2), None);
}

#[test]
fn keyboard_hints() {
    let (round, discovered) = revealed("AVAIN", "AIVAN");
    assert_eq!(map_keyboard_state(&round, &discovered, 'A'), Some(Hint::Correct));
    assert_eq!(map_keyboard_state(&round, &discovered, 'I'), Some(Hint::Present));
    assert_eq!(map_keyboard_state(&round, &discovered, 'Q'), None);
}

#[test]
fn round_knowledge_last_entry_wins() {
    let mut round = RoundKnowledge::new();
    round.record_state('A', 1, CharacterState::Absent);
    round.record_state('A', 1, CharacterState::Correct);
    assert_eq!(round.state_of('A', 1), Some(CharacterState::Correct));
    assert_eq!(round.state_of('A', 2), None);
    assert!(round.has_state_somewhere('A', CharacterState::Correct));
    assert!(!round.has_state_somewhere('A', CharacterState::Absent));
    round.record_count('A', 1);
    round.record_count('A', 2);
    assert_eq!(round.at_least_of('A'), Some(2));
    let copy = round.duplicate();
    assert_eq!(copy.facts, round.facts);
    assert_eq!(copy.counts, round.counts);
}

#[test]
fn letter_helpers() {
    assert_eq!(count_of(&w("AVAIN"), 'A'), 2);
    assert_eq!(count_of(&w("AVAIN"), 'Z'), 0);
    assert!(contains_char(&w("AVAIN"), 'I'));
    assert!(!contains_char(&w(""), 'I'));
    let mut set = vec!['A'];
    add_char(&mut set, 'A');
    add_char(&mut set, 'B');
    assert_eq!(set, vec!['A', 'B']);
}
