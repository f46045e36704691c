use sanuli::game::{is_listed, same_word, Game, GameMode, GuessOutcome, Message};
use sanuli::knowledge::Hint;

fn w(s: &str) -> Vec<char> {
    s.chars().collect()
}

fn list() -> Vec<Vec<char>> {
    ["AVAIN", "AIVAN", "KOIRA", "KISSA", "SUDET", "TALOT", "PUKKI", "LEIPÄ"]
        .iter()
        .map(|s| w(s))
        .collect()
}

fn type_word(game: &mut Game, word: &str) {
    for c in word.chars() {
        assert!(game.key_press(c));
    }
}

fn submit(game: &mut Game, word: &str) -> GuessOutcome {
    type_word(game, word);
    game.submit_guess()
}

#[test]
fn new_game_is_empty() {
    let game = Game::with_word(list(), w("AVAIN"), 5, 6);
    assert_eq!(game.guesses.len(), 6);
    assert_eq!(game.rounds.len(), 6);
    assert!(game.guesses.iter().all(|g| g.is_empty()));
    assert_eq!(game.current_guess, 0);
    assert!(game.is_guessing);
    assert!(!game.is_winner);
    assert_eq!(game.message, Message::Empty);
}

#[test]
fn random_game_word_is_listed() {
    let game = Game::new(list(), 5, 6);
    assert!(list().contains(&game.word));
}

#[test]
fn key_press_stops_at_word_length() {
    let mut game = Game::with_word(list(), w("AVAIN"), 5, 6);
    type_word(&mut game, "KOIRA");
    assert!(!game.key_press('X'));
    assert_eq!(game.guesses[0], w("KOIRA"));
    assert!(game.backspace());
    assert_eq!(game.guesses[0], w("KOIR"));
}

#[test]
fn backspace_on_empty_row_does_nothing() {
    let mut game = Game::with_word(list(), w("AVAIN"), 5, 6);
    assert!(!game.backspace());
    assert!(game.guesses[0].is_empty());
}

#[test]
fn short_guess_is_rejected() {
    let mut game = Game::with_word(list(), w("AVAIN"), 5, 6);
    type_word(&mut game, "KOI");
    assert_eq!(game.submit_guess(), GuessOutcome::TooShort);
    assert_eq!(game.message, Message::TooShort);
    assert_eq!(game.current_guess, 0);
    assert!(game.rounds[0].facts.is_empty());
}

#[test]
fn unknown_word_is_rejected() {
    let mut game = Game::with_word(list(), w("AVAIN"), 5, 6);
    assert_eq!(submit(&mut game, "QWERT"), GuessOutcome::NotInWordList);
    assert!(game.is_unknown);
    assert_eq!(game.message, Message::NotInWordList);
    assert_eq!(game.current_guess, 0);
    assert!(game.rounds[0].facts.is_empty());
    assert!(game.discovered.is_empty());
    assert!(game.backspace());
    assert!(!game.is_unknown);
}

#[test]
fn win_on_first_row() {
    let mut game = Game::with_word(list(), w("AVAIN"), 5, 6);
    assert_eq!(submit(&mut game, "AVAIN"), GuessOutcome::Won);
    assert!(game.is_winner);
    assert!(!game.is_guessing);
    assert_eq!(game.streak, 1);
    assert_eq!(game.message, Message::Found);
    assert!(!game.key_press('A'));
}

#[test]
fn win_on_later_row() {
    let mut game = Game::with_word(list(), w("AVAIN"), 5, 6);
    assert_eq!(submit(&mut game, "KOIRA"), GuessOutcome::Continue);
    assert_eq!(submit(&mut game, "KISSA"), GuessOutcome::Continue);
    assert_eq!(submit(&mut game, "SUDET"), GuessOutcome::Continue);
    assert_eq!(game.current_guess, 3);
    assert_eq!(submit(&mut game, "AVAIN"), GuessOutcome::Won);
    assert!(game.is_winner);
    assert!(!game.is_guessing);
    assert_eq!(game.current_guess, 3);
}

#[test]
fn daily_win_message() {
    let mut game = Game::with_word(list(), w("AVAIN"), 5, 6);
    game.set_game_mode(GameMode::DailyWord);
    assert_eq!(submit(&mut game, "AVAIN"), GuessOutcome::Won);
    assert_eq!(game.message, Message::FoundDaily);
}

#[test]
fn loss_reveals_the_word() {
    let mut game = Game::with_word(list(), w("AVAIN"), 5, 6);
    game.streak = 4;
    for word in ["KOIRA", "KISSA", "SUDET", "TALOT", "PUKKI"] {
        assert_eq!(submit(&mut game, word), GuessOutcome::Continue);
    }
    assert_eq!(submit(&mut game, "LEIPÄ"), GuessOutcome::Lost);
    assert!(!game.is_guessing);
    assert!(!game.is_winner);
    assert_eq!(game.streak, 0);
    assert_eq!(game.message, Message::WordWas(w("AVAIN")));
    assert_eq!(game.current_guess, 5);
}

#[test]
fn knowledge_is_carried_forward() {
    let mut game = Game::with_word(list(), w("AVAIN"), 5, 6);
    assert_eq!(submit(&mut game, "AIVAN"), GuessOutcome::Continue);
    assert_eq!(game.rounds[1].facts, game.rounds[0].facts);
    assert_eq!(game.rounds[1].counts, game.rounds[0].counts);
    assert!(game.rounds[2].facts.is_empty());
    assert_eq!(submit(&mut game, "KOIRA"), GuessOutcome::Continue);
    assert_eq!(game.rounds[2].facts, game.rounds[1].facts);
    assert!(game.rounds[1].at_least_of('A').unwrap() <= game.rounds[2].at_least_of('A').unwrap());
    assert_eq!(game.map_guess_row(&w("AIVAN"), 0), game.map_guess_row(&w("AIVAN"), 1));
}

#[test]
fn game_hints_follow_current_round() {
    let mut game = Game::with_word(list(), w("AVAIN"), 5, 6);
    assert_eq!(submit(&mut game, "KOIRA"), GuessOutcome::Continue);
    assert_eq!(game.map_keyboard_state('K'), Some(Hint::Absent));
    assert_eq!(game.map_keyboard_state('I'), Some(Hint::Present));
    assert_eq!(game.map_keyboard_state('A'), Some(Hint::Present));
    assert_eq!(game.map_keyboard_state('V'), None);
    assert_eq!(game.map_current_row('K', 3), Some(Hint::Absent));
    assert_eq!(game.map_current_row('V', 1), None);
    assert_eq!(
        game.map_guess_row(&w("KOIRA"), 0),
        vec![
            Some(Hint::Absent),
            Some(Hint::Absent),
            Some(Hint::Present),
            Some(Hint::Absent),
            Some(Hint::Present)
        ]
    );
    assert!(!game.discovered.contains(&'K'));
}

#[test]
fn replay_matches_played_game() {
    let mut played = Game::with_word(list(), w("AVAIN"), 5, 6);
    for word in ["KOIRA", "AIVAN", "KISSA"] {
        assert_eq!(submit(&mut played, word), GuessOutcome::Continue);
    }
    let mut resumed = Game::with_word(list(), w("AVAIN"), 5, 6);
    let rows = vec![w("KOIRA"), w("AIVAN"), w("KISSA"), w(""), w(""), w("")];
    assert!(resumed.replay(&rows));
    for k in 0..3 {
        assert_eq!(resumed.guesses[k], played.guesses[k]);
        assert_eq!(
            resumed.map_guess_row(&resumed.guesses[k].clone(), k),
            played.map_guess_row(&played.guesses[k].clone(), k)
        );
        for c in "AVINKORS".chars() {
            for i in 0..5 {
                assert_eq!(resumed.rounds[k].state_of(c, i), played.rounds[k].state_of(c, i));
            }
            assert_eq!(resumed.rounds[k].at_least_of(c), played.rounds[k].at_least_of(c));
        }
    }
    resumed.current_guess = 3;
    for c in "AVINKORSZ".chars() {
        assert_eq!(resumed.map_keyboard_state(c), played.map_keyboard_state(c));
        assert_eq!(resumed.discovered.contains(&c), played.discovered.contains(&c));
    }
}

#[test]
fn replay_refuses_bad_rows() {
    let mut game = Game::with_word(list(), w("AVAIN"), 5, 6);
    assert!(!game.replay(&vec![w("KOIRAT")]));
    assert!(!game.replay(&vec![w(""); 7]));
    assert!(game.rounds[0].facts.is_empty());
    assert!(game.guesses[0].is_empty());
}

#[test]
fn relay_starts_with_previous_word() {
    let mut game = Game::with_word(list(), w("AVAIN"), 5, 6);
    game.set_game_mode(GameMode::Relay);
    assert_eq!(submit(&mut game, "KOIRA"), GuessOutcome::Continue);
    assert_eq!(submit(&mut game, "AVAIN"), GuessOutcome::Won);
    game.start_new_game(w("KISSA"));
    assert_eq!(game.word, w("KISSA"));
    assert_eq!(game.guesses[0], w("AVAIN"));
    assert_eq!(game.current_guess, 1);
    assert!(game.is_guessing);
    assert!(!game.is_winner);
    assert!(game.is_reset);
    assert_eq!(game.previous_guesses, vec![w("KOIRA")]);
    assert_eq!(game.rounds[1].facts, game.rounds[0].facts);
    assert_eq!(game.rounds[0].at_least_of('A'), Some(1));
}

#[test]
fn classic_new_game_clears_everything() {
    let mut game = Game::with_word(list(), w("AVAIN"), 5, 6);
    assert_eq!(submit(&mut game, "KOIRA"), GuessOutcome::Continue);
    assert_eq!(submit(&mut game, "AVAIN"), GuessOutcome::Won);
    game.start_new_game(w("KISSA"));
    assert_eq!(game.current_guess, 0);
    assert!(game.guesses.iter().all(|g| g.is_empty()));
    assert!(game.rounds.iter().all(|r| r.facts.is_empty() && r.counts.is_empty()));
    assert!(game.discovered.is_empty());
    assert_eq!(game.streak, 1);
}

#[test]
fn random_new_game_keeps_length() {
    let mut game = Game::with_word(list(), w("AVAIN"), 5, 6);
    game.start_random_game();
    assert!(list().contains(&game.word));
    assert_eq!(game.current_guess, 0);
}

#[test]
fn changing_word_length_rebuilds_the_list() {
    let words = "AVAIN\nKISSAT\nPÄÄSKY\n";
    let mut game = Game::with_word(list(), w("AVAIN"), 5, 6);
    game.streak = 3;
    assert!(game.change_word_length(words, 6));
    assert_eq!(game.word_length, 6);
    assert_eq!(game.word_list, vec![w("KISSAT"), w("PÄÄSKY")]);
    assert!(game.word_list.contains(&game.word));
    assert_eq!(game.streak, 0);
    assert!(!game.change_word_length(words, 7));
    assert_eq!(game.word_length, 6);
}

#[test]
fn daily_word_of_other_length_switches_list() {
    let words = "AVAIN\nKISSAT\nPÄÄSKY\n";
    let mut game = Game::with_word(list(), w("AVAIN"), 5, 6);
    game.start_game_with_word(words, w("PÄÄSKY"));
    assert_eq!(game.word_length, 6);
    assert_eq!(game.word, w("PÄÄSKY"));
    assert_eq!(game.word_list, vec![w("KISSAT"), w("PÄÄSKY")]);
}

#[test]
fn mode_change_remembers_previous() {
    let mut game = Game::with_word(list(), w("AVAIN"), 5, 6);
    game.set_game_mode(GameMode::Relay);
    game.set_game_mode(GameMode::DailyWord);
    assert_eq!(game.game_mode, GameMode::DailyWord);
    assert_eq!(game.previous_game_mode, GameMode::Relay);
}

#[test]
fn word_helpers() {
    assert!(same_word(&w("AVAIN"), &w("AVAIN")));
    assert!(!same_word(&w("AVAIN"), &w("AIVAN")));
    assert!(!same_word(&w("AVAIN"), &w("AVAI")));
    assert!(is_listed(&list(), &w("KISSA")));
    assert!(!is_listed(&list(), &w("KISS")));
}
