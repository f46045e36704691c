use sanuli::daily::{daily_word_index, index_from_days, word_of_the_day, CalendarDate};
use sanuli::game::GameMode;
use sanuli::words::{daily_word, parse_words, split_lines, split_rows};

fn w(s: &str) -> Vec<char> {
    s.chars().collect()
}

#[test]
fn parse_words_keeps_lines_of_the_length() {
    let text = "AIVAN\nKOIRA\nKISSAT\n\nTALO\r\nAVAIN\r\n";
    assert_eq!(parse_words(text, 5), vec![w("AIVAN"), w("KOIRA"), w("AVAIN")]);
    assert_eq!(parse_words(text, 4), vec![w("TALO")]);
    assert_eq!(parse_words(text, 6), vec![w("KISSAT")]);
    assert_eq!(parse_words(text, 0), vec![w("")]);
    assert!(parse_words("", 5).is_empty());
}

#[test]
fn parse_words_reads_non_ascii_letters() {
    assert_eq!(parse_words("ÄITI\nPÄÄSKY\nÖLJYÄ", 5), vec![w("ÖLJYÄ")]);
}

#[test]
fn split_lines_follows_line_endings() {
    assert_eq!(split_lines(&w("a\n\nb")), vec![w("a"), w(""), w("b")]);
    assert_eq!(split_lines(&w("a\r\nb\r")), vec![w("a"), w("b\r")]);
    assert!(split_lines(&w("")).is_empty());
    assert_eq!(split_lines(&w("x\n")), vec![w("x")]);
}

#[test]
fn daily_word_picks_a_line() {
    let list = "AIVAN\nKOIRA\nKISSA\n";
    assert_eq!(daily_word(list, 0), Some(w("AIVAN")));
    assert_eq!(daily_word(list, 2), Some(w("KISSA")));
    assert_eq!(daily_word(list, 3), None);
}

#[test]
fn split_rows_keeps_empty_fields() {
    assert_eq!(
        split_rows("AIVAN,KOIRA,,"),
        vec![w("AIVAN"), w("KOIRA"), w(""), w("")]
    );
    assert_eq!(split_rows(""), vec![w("")]);
}

#[test]
fn mode_names_round_trip() {
    for mode in [GameMode::Classic, GameMode::Relay, GameMode::DailyWord] {
        assert_eq!(GameMode::from_name(mode.name()), Some(mode));
    }
    assert_eq!(GameMode::Relay.name(), "relay");
    assert_eq!(GameMode::DailyWord.name(), "daily_word");
    assert_eq!(GameMode::from_name("classic"), Some(GameMode::Classic));
    assert_eq!(GameMode::from_name("Classic"), None);
    assert_eq!("daily_word".parse::<GameMode>(), Ok(GameMode::DailyWord));
    assert_eq!("weekly".parse::<GameMode>(), Err(()));
}

#[test]
fn daily_index_counts_days_from_the_first_day() {
    let first = CalendarDate { year: 2022, month: 1, day: 7 };
    assert_eq!(daily_word_index(&first), Some(0));
    let later = CalendarDate { year: 2022, month: 2, day: 8 };
    assert_eq!(daily_word_index(&later), Some(32));
    let next_year = CalendarDate { year: 2023, month: 1, day: 7 };
    assert_eq!(daily_word_index(&next_year), Some(365));
    let before = CalendarDate { year: 2022, month: 1, day: 6 };
    assert_eq!(daily_word_index(&before), None);
    let invalid = CalendarDate { year: 2022, month: 2, day: 30 };
    assert_eq!(daily_word_index(&invalid), None);
}

#[test]
fn index_from_days_rejects_negative_days() {
    assert_eq!(index_from_days(0), Some(0));
    assert_eq!(index_from_days(41), Some(41));
    assert_eq!(index_from_days(-1), None);
}

#[test]
fn word_of_the_day_reads_the_list() {
    let list = "AIVAN\nKOIRA\nKISSA\n";
    let day = CalendarDate { year: 2022, month: 1, day: 8 };
    assert_eq!(word_of_the_day(list, &day), Some(w("KOIRA")));
    let late = CalendarDate { year: 2022, month: 1, day: 10 };
    assert_eq!(word_of_the_day(list, &late), None);
}
