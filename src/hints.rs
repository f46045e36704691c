//! Tile and keyboard hints derived from a round's knowledge.

use crate::knowledge::{contains_char, CharacterState, Hint, RoundKnowledge};
use vstd::prelude::*;

verus! {

/// Number of positions `j < n` where `guess` has `c` and the round knows
/// state `st` for `c` at `j`.
pub open spec fn tally(
    round: RoundKnowledge,
    guess: Seq<char>,
    c: char,
    st: CharacterState,
    n: int,
) -> nat
    decreases n,
{
    if n <= 0 {
        0
    } else {
        tally(round, guess, c, st, n - 1) + if guess[n - 1] == c && round.state(c, n - 1) == Some(
            st,
        ) {
            1nat
        } else {
            0nat
        }
    }
}

/// The hint of position `i` of a submitted row.
///
/// A non-matching copy of a letter is `Present` while the copies counted so
/// far (every matching copy in the row, then the non-matching ones from the
/// left up to this one) stay within the letter's known bound.
pub open spec fn row_hint(round: RoundKnowledge, guess: Seq<char>, i: int) -> Option<Hint> {
    let c = guess[i];
    match round.state(c, i) {
        Some(CharacterState::Correct) => Some(Hint::Correct),
        Some(CharacterState::Absent) => if tally(round, guess, c, CharacterState::Correct, guess.len() as int)
            + tally(round, guess, c, CharacterState::Absent, i + 1) <= round.min_count(c) {
            Some(Hint::Present)
        } else {
            Some(Hint::Absent)
        },
        _ => None,
    }
}

/// The hint of letter `c` typed at position `i` of the row being composed.
pub open spec fn tile_hint(round: RoundKnowledge, discovered: Seq<char>, c: char, i: int) -> Option<
    Hint,
> {
    if round.state(c, i) == Some(CharacterState::Correct) {
        Some(Hint::Correct)
    } else if round.at_least(c) is None && round.somewhere(c, CharacterState::Absent) {
        Some(Hint::Absent)
    } else if discovered.contains(c) {
        Some(Hint::Present)
    } else {
        None
    }
}

/// The hint of the key for letter `c`.
pub open spec fn key_hint(round: RoundKnowledge, discovered: Seq<char>, c: char) -> Option<Hint> {
    if round.somewhere(c, CharacterState::Correct) {
        Some(Hint::Correct)
    } else if round.at_least(c) is None && round.somewhere(c, CharacterState::Absent) {
        Some(Hint::Absent)
    } else if discovered.contains(c) {
        Some(Hint::Present)
    } else {
        None
    }
}

/// Counts the positions `j < n` where `guess` has `c` and `states` holds `st`.
fn tally_of(
    round: &RoundKnowledge,
    guess: &Vec<char>,
    states: &Vec<Option<CharacterState>>,
    c: char,
    st: CharacterState,
    n: usize,
) -> (r: usize)
    requires
        n <= guess@.len(),
        states@.len() == guess@.len(),
        forall|j: int| 0 <= j < guess@.len() ==> #[trigger] states@[j] == round.state(guess@[j], j),
    ensures
        r == tally(*round, guess@, c, st, n as int),
        r <= n,
{
    let mut count: usize = 0;
    let mut j: usize = 0;
    while j < n
        invariant
            j <= n,
            n <= guess@.len(),
            states@.len() == guess@.len(),
            forall|k: int| 0 <= k < guess@.len() ==> #[trigger] states@[k] == round.state(guess@[k], k),
            count == tally(*round, guess@, c, st, j as int),
            count <= j,
        decreases n - j,
    {
        assert(states@[j as int] == round.state(guess@[j as int], j as int));
        if guess[j] == c && states[j] == Some(st) {
            count = count + 1;
        }
        j = j + 1;
    }
    count
}

/// Hints for a submitted row: one per position up to `word_length`, `None`
/// past the end of `guess` and where the round knows nothing.
pub fn map_guess_row(round: &RoundKnowledge, guess: &Vec<char>, word_length: usize) -> (r: Vec<
    Option<Hint>,
>)
    requires
        guess@.len() <= word_length,
    ensures
        r@.len() == word_length,
        forall|i: int| 0 <= i < guess@.len() ==> #[trigger] r@[i] == row_hint(*round, guess@, i),
        forall|i: int| guess@.len() <= i < word_length ==> #[trigger] r@[i] is None,
{
    let mut states: Vec<Option<CharacterState>> = Vec::new();
    let mut i: usize = 0;
    while i < guess.len()
        invariant
            i <= guess@.len(),
            states@.len() == i,
            forall|j: int| 0 <= j < i ==> #[trigger] states@[j] == round.state(guess@[j], j),
        decreases guess@.len() - i,
    {
        states.push(round.state_of(guess[i], i));
        i = i + 1;
    }
    let mut row: Vec<Option<Hint>> = Vec::new();
    let mut i: usize = 0;
    while i < guess.len()
        invariant
            i <= guess@.len(),
            guess@.len() <= word_length,
            states@.len() == guess@.len(),
            forall|j: int| 0 <= j < guess@.len() ==> #[trigger] states@[j] == round.state(guess@[j], j),
            row@.len() == i,
            forall|j: int| 0 <= j < i ==> #[trigger] row@[j] == row_hint(*round, guess@, j),
        decreases guess@.len() - i,
    {
        let c = guess[i];
        assert(states@[i as int] == round.state(c, i as int));
        let hint = match states[i] {
            Some(CharacterState::Correct) => Some(Hint::Correct),
            Some(CharacterState::Absent) => {
                let correct = tally_of(round, guess, &states, c, CharacterState::Correct, guess.len());
                let seen = tally_of(round, guess, &states, c, CharacterState::Absent, i + 1);
                let bound = match round.at_least_of(c) {
                    Some(n) => n,
                    None => 0,
                };
                if correct <= bound && seen <= bound - correct {
                    Some(Hint::Present)
                } else {
                    Some(Hint::Absent)
                }
            },
            _ => None,
        };
        row.push(hint);
        i = i + 1;
    }
    while i < word_length
        invariant
            guess@.len() <= i <= word_length,
            row@.len() == i,
            forall|j: int| 0 <= j < guess@.len() ==> #[trigger] row@[j] == row_hint(*round, guess@, j),
            forall|j: int| guess@.len() <= j < i ==> #[trigger] row@[j] is None,
        decreases word_length - i,
    {
        row.push(None);
        i = i + 1;
    }
    row
}

/// The hint of letter `c` typed at position `i` of the row being composed.
pub fn map_current_row(round: &RoundKnowledge, discovered: &Vec<char>, c: char, i: usize) -> (r:
    Option<Hint>)
    ensures
        r == tile_hint(*round, discovered@, c, i as int),
{
    if round.state_of(c, i) == Some(CharacterState::Correct) {
        return Some(Hint::Correct);
    }
    let is_count_unknown = round.at_least_of(c).is_none();
    if is_count_unknown && round.has_state_somewhere(c, CharacterState::Absent) {
        return Some(Hint::Absent);
    }
    if contains_char(discovered, c) {
        return Some(Hint::Present);
    }
    None
}

/// The hint of the key for letter `c`.
pub fn map_keyboard_state(round: &RoundKnowledge, discovered: &Vec<char>, c: char) -> (r: Option<
    Hint,
>)
    ensures
        r == key_hint(*round, discovered@, c),
{
    if round.has_state_somewhere(c, CharacterState::Correct) {
        return Some(Hint::Correct);
    }
    let is_count_unknown = round.at_least_of(c).is_none();
    if is_count_unknown && round.has_state_somewhere(c, CharacterState::Absent) {
        Some(Hint::Absent)
    } else if contains_char(discovered, c) {
        Some(Hint::Present)
    } else {
        None
    }
}

} // verus!
