//! Comparison of a submitted guess with the hidden word, and the merge of
//! what it shows into a round's knowledge.

use crate::knowledge::{add_char, contains_char, count_of, occurrences, CharacterState, RoundKnowledge};
use vstd::prelude::*;

verus! {

/// The raw classification of position `i`: `Correct` where the letters agree.
pub open spec fn position_class(secret: Seq<char>, guess: Seq<char>, i: int) -> CharacterState {
    if guess[i] == secret[i] {
        CharacterState::Correct
    } else {
        CharacterState::Absent
    }
}

/// The raw classification of every position of `guess`.
pub open spec fn evaluation(secret: Seq<char>, guess: Seq<char>) -> Seq<CharacterState> {
    Seq::new(guess.len(), |i: int| position_class(secret, guess, i))
}

/// `c` stands in one of the first `n` positions of `guess` where the hidden
/// word has another letter.
pub open spec fn misplaced_within(secret: Seq<char>, guess: Seq<char>, c: char, n: int) -> bool {
    exists|i: int| 0 <= i < n && #[trigger] guess[i] == c && secret[i] != c
}

/// The guess teaches a bound on the number of copies of `c`: it holds `c`
/// at a non-matching position, and the hidden word holds `c`.
pub open spec fn learns_count(secret: Seq<char>, guess: Seq<char>, c: char) -> bool {
    misplaced_within(secret, guess, c, guess.len() as int) && secret.contains(c)
}

/// The bound the guess shows for `c`: all copies of the hidden word where the
/// guess has as many or more, else as many as the guess has.
pub open spec fn count_bound(secret: Seq<char>, guess: Seq<char>, c: char) -> nat {
    if occurrences(guess, c) >= occurrences(secret, c) {
        occurrences(secret, c)
    } else {
        occurrences(guess, c)
    }
}

/// `known` raised to `bound` where it is lower.
pub open spec fn raised(known: nat, bound: nat) -> nat {
    if bound > known {
        bound
    } else {
        known
    }
}

/// `after` is `before` with what `guess` shows about `secret` merged in:
/// each position of the guess gets its raw classification, and each letter
/// that teaches a bound has it raised to `count_bound`.
pub open spec fn reveals(
    before: RoundKnowledge,
    after: RoundKnowledge,
    secret: Seq<char>,
    guess: Seq<char>,
) -> bool {
    &&& forall|c: char, i: int| #[trigger]
        after.state(c, i) == if 0 <= i < guess.len() && guess[i] == c {
            Some(position_class(secret, guess, i))
        } else {
            before.state(c, i)
        }
    &&& forall|c: char| #[trigger]
        after.at_least(c) == if learns_count(secret, guess, c) {
            Some(raised(before.min_count(c), count_bound(secret, guess, c)))
        } else {
            before.at_least(c)
        }
}

/// The letters in `after` are those in `before` and those for which `guess`
/// teaches a bound.
pub open spec fn discovers(before: Seq<char>, after: Seq<char>, secret: Seq<char>, guess: Seq<char>) -> bool {
    forall|c: char| #[trigger] after.contains(c) <==> before.contains(c) || learns_count(secret, guess, c)
}

/// Classifies position `i` of `guess` against `secret`.
pub fn classify_position(secret: &Vec<char>, guess: &Vec<char>, i: usize) -> (r: CharacterState)
    requires
        i < guess@.len(),
        i < secret@.len(),
    ensures
        r == position_class(secret@, guess@, i as int),
{
    if guess[i] == secret[i] {
        CharacterState::Correct
    } else {
        CharacterState::Absent
    }
}

/// Classifies every position of `guess` against `secret`.
pub fn classify_positions(secret: &Vec<char>, guess: &Vec<char>) -> (r: Vec<CharacterState>)
    requires
        guess@.len() <= secret@.len(),
    ensures
        r@ == evaluation(secret@, guess@),
{
    let mut marks: Vec<CharacterState> = Vec::new();
    let mut i: usize = 0;
    while i < guess.len()
        invariant
            i <= guess@.len(),
            guess@.len() <= secret@.len(),
            marks@ =~= evaluation(secret@, guess@).take(i as int),
        decreases guess@.len() - i,
    {
        marks.push(classify_position(secret, guess, i));
        i = i + 1;
    }
    marks
}

/// Merges what `guess` shows about `secret` into `round` and `discovered`.
pub fn reveal_guess(
    round: &mut RoundKnowledge,
    discovered: &mut Vec<char>,
    secret: &Vec<char>,
    guess: &Vec<char>,
)
    requires
        guess@.len() <= secret@.len(),
    ensures
        reveals(*old(round), *final(round), secret@, guess@),
        discovers(old(discovered)@, final(discovered)@, secret@, guess@),
{
    let marks = classify_positions(secret, guess);
    let mut i: usize = 0;
    while i < guess.len()
        invariant
            i <= guess@.len(),
            guess@.len() <= secret@.len(),
            marks@ == evaluation(secret@, guess@),
            forall|c: char, j: int| #[trigger]
                round.state(c, j) == if 0 <= j < i && guess@[j] == c {
                    Some(position_class(secret@, guess@, j))
                } else {
                    old(round).state(c, j)
                },
            forall|c: char| #[trigger]
                round.at_least(c) == if misplaced_within(secret@, guess@, c, i as int)
                    && secret@.contains(c) {
                    Some(raised(old(round).min_count(c), count_bound(secret@, guess@, c)))
                } else {
                    old(round).at_least(c)
                },
            forall|c: char| #[trigger]
                discovered@.contains(c) <==> old(discovered)@.contains(c) || (misplaced_within(
                    secret@,
                    guess@,
                    c,
                    i as int,
                ) && secret@.contains(c)),
        decreases guess@.len() - i,
    {
        let ch = guess[i];
        let mark = marks[i];
        round.record_state(ch, i, mark);
        if mark == CharacterState::Absent && contains_char(secret, ch) {
            let in_word = count_of(secret, ch);
            let in_guess = count_of(guess, ch);
            let bound = if in_guess >= in_word {
                in_word
            } else {
                in_guess
            };
            let known = match round.at_least_of(ch) {
                Some(n) => n,
                None => 0,
            };
            let next = if bound > known {
                bound
            } else {
                known
            };
            proof {
                assert(misplaced_within(secret@, guess@, ch, i + 1));
                if misplaced_within(secret@, guess@, ch, i as int) {
                    assert(known as nat == raised(old(round).min_count(ch), count_bound(secret@, guess@, ch)));
                }
            }
            round.record_count(ch, next);
            add_char(discovered, ch);
        }
        proof {
            assert forall|c: char|
                #[trigger] misplaced_within(secret@, guess@, c, i + 1) <==> misplaced_within(
                    secret@,
                    guess@,
                    c,
                    i as int,
                ) || (guess@[i as int] == c && secret@[i as int] != c) by {
                if misplaced_within(secret@, guess@, c, i + 1) {
                    let j = choose|j: int| 0 <= j < i + 1 && #[trigger] guess@[j] == c && secret@[j] != c;
                    if j < i {
                        assert(misplaced_within(secret@, guess@, c, i as int));
                    }
                }
                if misplaced_within(secret@, guess@, c, i as int) {
                    let j = choose|j: int| 0 <= j < i && #[trigger] guess@[j] == c && secret@[j] != c;
                    assert(0 <= j < i + 1 && guess@[j] == c && secret@[j] != c);
                }
            }
        }
        i = i + 1;
    }
}

} // verus!
