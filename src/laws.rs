//! Properties that relate several operations of the library.

use crate::evaluate::{count_bound, discovers, evaluation, learns_count, raised, reveals};
use crate::game::Game;
use crate::knowledge::{CharacterState, RoundKnowledge};
use vstd::prelude::*;

verus! {

/// Number of `Correct` marks in `marks`.
pub open spec fn correct_marks(marks: Seq<CharacterState>) -> nat
    decreases marks.len(),
{
    if marks.len() == 0 {
        0
    } else {
        correct_marks(marks.drop_last()) + if marks.last() == CharacterState::Correct {
            1nat
        } else {
            0nat
        }
    }
}

proof fn lemma_correct_marks_bounded(marks: Seq<CharacterState>)
    ensures
        correct_marks(marks) <= marks.len(),
    decreases marks.len(),
{
    if marks.len() > 0 {
        lemma_correct_marks_bounded(marks.drop_last());
    }
}

/// The raw evaluation marks a position `Correct` exactly where guess and
/// hidden word agree, so no row has more `Correct` marks than letters.
pub proof fn law_correct_where_letters_agree(secret: Seq<char>, guess: Seq<char>)
    requires
        guess.len() == secret.len(),
    ensures
        evaluation(secret, guess).len() == guess.len(),
        forall|i: int|
            0 <= i < guess.len() ==> (#[trigger] evaluation(secret, guess)[i] == CharacterState::Correct
                <==> guess[i] == secret[i]),
        correct_marks(evaluation(secret, guess)) <= secret.len(),
{
    lemma_correct_marks_bounded(evaluation(secret, guess));
}

/// Evaluating a guess never lowers the known bound of any letter.
pub proof fn law_bound_never_decreases(
    before: RoundKnowledge,
    after: RoundKnowledge,
    secret: Seq<char>,
    guess: Seq<char>,
)
    requires
        reveals(before, after, secret, guess),
    ensures
        forall|c: char| before.min_count(c) <= #[trigger] after.min_count(c),
{
    assert forall|c: char| before.min_count(c) <= #[trigger] after.min_count(c) by {
        assert(after.at_least(c) == before.at_least(c) || after.at_least(c) == Some(
            raised(before.min_count(c), count_bound(secret, guess, c)),
        ));
    }
}

/// Over the rounds of a replayed game, the known bound of every letter
/// never decreases from one round to the next.
pub proof fn law_bounds_grow_over_rounds(before: Game, after: Game, rows: Seq<Seq<char>>)
    requires
        Game::knowledge_replayed(before, after, rows),
    ensures
        forall|k: int, c: char|
            0 < k < rows.len() ==> after.rounds@[k - 1].min_count(c) <= #[trigger] after.rounds@[k].min_count(c),
{
    assert forall|k: int, c: char|
        0 < k < rows.len() implies after.rounds@[k - 1].min_count(c) <= #[trigger] after.rounds@[k].min_count(c) by {
        assert(reveals(after.rounds@[k - 1], after.rounds@[k], before.word@, rows[k]));
        law_bound_never_decreases(after.rounds@[k - 1], after.rounds@[k], before.word@, rows[k]);
    }
}

/// Evaluation is a function of what is known before: rounds that know the
/// same, given the same guess, know the same after.
pub proof fn law_reveal_is_determined(
    a0: RoundKnowledge,
    a1: RoundKnowledge,
    b0: RoundKnowledge,
    b1: RoundKnowledge,
    secret: Seq<char>,
    guess: Seq<char>,
)
    requires
        a0.same_as(&b0),
        reveals(a0, a1, secret, guess),
        reveals(b0, b1, secret, guess),
    ensures
        a1.same_as(&b1),
{
    assert forall|c: char, i: int| #[trigger] a1.state(c, i) == b1.state(c, i) by {
        assert(a0.state(c, i) == b0.state(c, i));
    }
    assert forall|c: char| #[trigger] a1.at_least(c) == b1.at_least(c) by {
        assert(a0.at_least(c) == b0.at_least(c));
    }
}

proof fn lemma_rounds_agree_upto(a0: Game, a1: Game, b0: Game, b1: Game, rows: Seq<Seq<char>>, n: int)
    requires
        0 <= n <= rows.len(),
        a0.is_fresh(),
        b0.is_fresh(),
        a0.rounds@.len() > 0,
        b0.rounds@.len() > 0,
        a0.word@ == b0.word@,
        Game::knowledge_replayed(a0, a1, rows),
        Game::knowledge_replayed(b0, b1, rows),
    ensures
        forall|k: int| 0 <= k < n ==> (#[trigger] a1.rounds@[k]).same_as(&b1.rounds@[k]),
    decreases n,
{
    if n == 1 {
        let e = a0.rounds@[0];
        let f = b0.rounds@[0];
        assert(e.same_as(&f)) by {
            assert(e.facts@.len() == 0 && f.facts@.len() == 0);
            assert(e.counts@.len() == 0 && f.counts@.len() == 0);
        }
        law_reveal_is_determined(e, a1.rounds@[0], f, b1.rounds@[0], a0.word@, rows[0]);
    } else if n > 1 {
        lemma_rounds_agree_upto(a0, a1, b0, b1, rows, n - 1);
        let k = n - 1;
        assert(a1.rounds@[k - 1].same_as(&b1.rounds@[k - 1]));
        assert(reveals(a1.rounds@[k - 1], a1.rounds@[k], a0.word@, rows[k]));
        assert(reveals(b1.rounds@[k - 1], b1.rounds@[k], a0.word@, rows[k]));
        law_reveal_is_determined(a1.rounds@[k - 1], a1.rounds@[k], b1.rounds@[k - 1], b1.rounds@[k], a0.word@, rows[k]);
    }
}

/// Replaying the same rows against the same word from a fresh game gives
/// the same knowledge, round by round, and the same discovered letters,
/// whichever game they are replayed into.
pub proof fn law_replay_invariance(a0: Game, a1: Game, b0: Game, b1: Game, rows: Seq<Seq<char>>)
    requires
        a0.is_fresh(),
        b0.is_fresh(),
        a0.rounds@.len() > 0,
        b0.rounds@.len() > 0,
        a0.word@ == b0.word@,
        Game::knowledge_replayed(a0, a1, rows),
        Game::knowledge_replayed(b0, b1, rows),
    ensures
        forall|k: int| 0 <= k < rows.len() ==> (#[trigger] a1.rounds@[k]).same_as(&b1.rounds@[k]),
        forall|c: char| #[trigger] a1.discovered@.contains(c) <==> b1.discovered@.contains(c),
{
    lemma_rounds_agree_upto(a0, a1, b0, b1, rows, rows.len() as int);
    assert forall|c: char| #[trigger] a1.discovered@.contains(c) <==> b1.discovered@.contains(c) by {
        assert(!a0.discovered@.contains(c));
        assert(!b0.discovered@.contains(c));
    }
}

/// Rounds with the same logs know the same, so what a guess reveals from
/// one it reveals from the other.
proof fn lemma_reveals_from_copy(x: RoundKnowledge, y: RoundKnowledge, after: RoundKnowledge, secret: Seq<char>, guess: Seq<char>)
    requires
        x.facts@ == y.facts@,
        x.counts@ == y.counts@,
        reveals(x, after, secret, guess),
    ensures
        reveals(y, after, secret, guess),
{
    assert forall|c: char, i: int| #[trigger] x.state(c, i) == y.state(c, i) by {}
    assert forall|c: char| #[trigger] x.at_least(c) == y.at_least(c) by {}
}

/// The steps of a game played row by row: `pre[k]` is the game just before
/// row `k` is submitted, `post[k]` just after; between `post[k]` and
/// `pre[k + 1]` only the row being composed may change.
pub open spec fn played_rows(pre: Seq<Game>, post: Seq<Game>, rows: Seq<Seq<char>>) -> bool {
    &&& pre.len() == rows.len()
    &&& post.len() == rows.len()
    &&& forall|k: int|
        0 <= k < rows.len() ==> (#[trigger] pre[k]).wf() && pre[k].current_guess == k && pre[k].current_row()
            == rows[k] && Game::evaluated_step(pre[k], post[k])
    &&& forall|k: int|
        0 <= k < rows.len() - 1 ==> (#[trigger] pre[k + 1]).rounds@ == post[k].rounds@ && pre[k + 1].discovered@
            == post[k].discovered@ && pre[k + 1].word@ == post[k].word@
}

proof fn lemma_played_prefix(pre: Seq<Game>, post: Seq<Game>, rows: Seq<Seq<char>>, m: int)
    requires
        played_rows(pre, post, rows),
        0 <= m < rows.len(),
    ensures
        post[m].word@ == pre[0].word@,
        Game::knowledge_replayed(pre[0], post[m], rows.take(m + 1)),
    decreases m,
{
    let first = pre[0];
    assert(pre[m].wf() && pre[m].current_guess == m && Game::evaluated_step(pre[m], post[m]));
    if m == 0 {
        let t = rows.take(1);
        assert(t[0] == rows[0]);
        assert forall|c: char| #[trigger] post[0].discovered@.contains(c) <==> first.discovered@.contains(c)
            || exists|k: int| 0 <= k < 1 && #[trigger] learns_count(first.word@, t[k], c) by {
            if learns_count(first.word@, rows[0], c) {
                assert(learns_count(first.word@, t[0], c));
            }
        }
    } else {
        lemma_played_prefix(pre, post, rows, m - 1);
        let a = post[m - 1];
        let b = pre[m];
        let c1 = post[m];
        let t0 = rows.take(m);
        let t = rows.take(m + 1);
        assert(b.rounds@ == a.rounds@);
        assert(b.word@ == a.word@);
        assert forall|j: int| 0 <= j < m ==> #[trigger] c1.rounds@[j] == a.rounds@[j] by {
            if 0 <= j < m {
                assert(c1.rounds@[j] == b.rounds@[j]);
            }
        }
        assert forall|k: int| 0 < k < m + 1 implies reveals(c1.rounds@[k - 1], #[trigger] c1.rounds@[k], first.word@, t[k]) by {
            assert(t[k] == rows[k]);
            if k < m {
                assert(t0[k] == rows[k]);
                assert(reveals(a.rounds@[k - 1], a.rounds@[k], first.word@, t0[k]));
                assert(c1.rounds@[k - 1] == a.rounds@[k - 1]);
                assert(c1.rounds@[k] == a.rounds@[k]);
            } else {
                assert(c1.rounds@[m - 1] == a.rounds@[m - 1]);
                assert(reveals(b.rounds@[m], c1.rounds@[m], first.word@, rows[m]));
                lemma_reveals_from_copy(b.rounds@[m], c1.rounds@[m - 1], c1.rounds@[m], first.word@, rows[m]);
            }
        }
        if m > 1 {
            assert(t0[0] == rows[0]);
        }
        assert(c1.rounds@[0] == a.rounds@[0]);
        assert(t[0] == rows[0]);
        assert(t0.len() == m);
        assert forall|c: char| #[trigger] c1.discovered@.contains(c) <==> first.discovered@.contains(c)
            || exists|k: int| 0 <= k < m + 1 && #[trigger] learns_count(first.word@, t[k], c) by {
            if exists|k: int| 0 <= k < m + 1 && #[trigger] learns_count(first.word@, t[k], c) {
                let k = choose|k: int| 0 <= k < m + 1 && #[trigger] learns_count(first.word@, t[k], c);
                if k < m {
                    assert(t0[k] == t[k]);
                    assert(learns_count(first.word@, t0[k], c));
                } else {
                    assert(t[k] == rows[m]);
                }
            }
            if exists|k: int| 0 <= k < m && #[trigger] learns_count(first.word@, t0[k], c) {
                let k = choose|k: int| 0 <= k < m && #[trigger] learns_count(first.word@, t0[k], c);
                assert(t0[k] == t[k]);
                assert(learns_count(first.word@, t[k], c));
            }
            if learns_count(first.word@, rows[m], c) {
                assert(t[m] == rows[m]);
                assert(learns_count(first.word@, t[m], c));
            }
        }
    }
}

/// Playing rows one by one (each submitted and evaluated, with any typing
/// in between) leaves the knowledge that replaying those rows in order
/// from the first game's state leaves.
pub proof fn law_play_matches_replay(pre: Seq<Game>, post: Seq<Game>, rows: Seq<Seq<char>>)
    requires
        rows.len() > 0,
        played_rows(pre, post, rows),
    ensures
        Game::knowledge_replayed(pre[0], post[rows.len() - 1], rows),
{
    lemma_played_prefix(pre, post, rows, rows.len() - 1);
    assert(rows.take(rows.len() as int) =~= rows);
}

/// A game played row by row from a fresh start and a fresh game into which
/// the same rows are replayed (as when a saved game is resumed) know the
/// same, round by round, and have discovered the same letters.
pub proof fn law_played_and_resumed_agree(
    pre: Seq<Game>,
    post: Seq<Game>,
    rows: Seq<Seq<char>>,
    resumed_before: Game,
    resumed_after: Game,
)
    requires
        rows.len() > 0,
        played_rows(pre, post, rows),
        pre[0].is_fresh(),
        resumed_before.is_fresh(),
        resumed_before.wf(),
        resumed_before.word@ == pre[0].word@,
        Game::replayed(resumed_before, resumed_after, rows),
    ensures
        forall|k: int|
            0 <= k < rows.len() ==> (#[trigger] post[rows.len() - 1].rounds@[k]).same_as(&resumed_after.rounds@[k]),
        forall|c: char| #[trigger] post[rows.len() - 1].discovered@.contains(c) <==> resumed_after.discovered@.contains(c),
{
    assert(pre[0].wf());
    law_play_matches_replay(pre, post, rows);
    law_replay_invariance(pre[0], post[rows.len() - 1], resumed_before, resumed_after, rows);
}

/// A letter that the hidden word does not hold is marked `Absent` at every
/// position where a guess has it, and gains neither a bound nor a place
/// among the discovered letters.
pub proof fn law_missing_letter_stays_absent(
    before: RoundKnowledge,
    after: RoundKnowledge,
    found_before: Seq<char>,
    found_after: Seq<char>,
    secret: Seq<char>,
    guess: Seq<char>,
    c: char,
)
    requires
        guess.len() <= secret.len(),
        !secret.contains(c),
        reveals(before, after, secret, guess),
        discovers(found_before, found_after, secret, guess),
    ensures
        forall|i: int| 0 <= i < guess.len() && guess[i] == c ==> #[trigger] after.state(c, i) == Some(CharacterState::Absent),
        after.at_least(c) == before.at_least(c),
        found_after.contains(c) == found_before.contains(c),
{
    assert forall|i: int| 0 <= i < guess.len() && guess[i] == c implies #[trigger] after.state(c, i) == Some(
        CharacterState::Absent,
    ) by {
        assert(secret[i] != c);
    }
}

proof fn lemma_bound_has_a_source(before: Game, after: Game, rows: Seq<Seq<char>>, k: int, c: char)
    requires
        before.is_fresh(),
        before.rounds@.len() > 0,
        Game::knowledge_replayed(before, after, rows),
        0 <= k < rows.len(),
        after.rounds@[k].at_least(c) is Some,
    ensures
        exists|j: int| 0 <= j <= k && #[trigger] learns_count(before.word@, rows[j], c),
    decreases k,
{
    if k == 0 {
        let r0 = before.rounds@[0];
        assert(r0.counts@.len() == 0);
        assert(r0.at_least(c) is None);
        assert(learns_count(before.word@, rows[0], c));
    } else {
        assert(reveals(after.rounds@[k - 1], after.rounds@[k], before.word@, rows[k]));
        if learns_count(before.word@, rows[k], c) {
            assert(0 <= k <= k && learns_count(before.word@, rows[k], c));
        } else {
            lemma_bound_has_a_source(before, after, rows, k - 1, c);
            let j = choose|j: int| 0 <= j <= k - 1 && #[trigger] learns_count(before.word@, rows[j], c);
            assert(0 <= j <= k && learns_count(before.word@, rows[j], c));
        }
    }
}

/// In a game replayed from a fresh start, a letter that the hidden word
/// does not hold never gets a bound in any round and never becomes a
/// discovered letter.
pub proof fn law_missing_letter_never_discovered(before: Game, after: Game, rows: Seq<Seq<char>>, c: char)
    requires
        before.is_fresh(),
        before.rounds@.len() > 0,
        !before.word@.contains(c),
        Game::knowledge_replayed(before, after, rows),
    ensures
        forall|k: int| 0 <= k < rows.len() ==> (#[trigger] after.rounds@[k]).at_least(c) is None,
        !after.discovered@.contains(c),
{
    assert(!before.discovered@.contains(c));
    assert forall|k: int| 0 <= k < rows.len() implies !#[trigger] learns_count(before.word@, rows[k], c) by {}
    assert forall|k: int| 0 <= k < rows.len() implies (#[trigger] after.rounds@[k]).at_least(c) is None by {
        if after.rounds@[k].at_least(c) is Some {
            lemma_bound_has_a_source(before, after, rows, k, c);
            let j = choose|j: int| 0 <= j <= k && #[trigger] learns_count(before.word@, rows[j], c);
            assert(!learns_count(before.word@, rows[j], c));
        }
    }
}

/// In a game replayed from a fresh start, every letter with a known bound
/// in any round is among the discovered letters.
pub proof fn law_bounded_letters_are_discovered(before: Game, after: Game, rows: Seq<Seq<char>>)
    requires
        before.is_fresh(),
        before.rounds@.len() > 0,
        Game::knowledge_replayed(before, after, rows),
    ensures
        forall|k: int, c: char|
            0 <= k < rows.len() && (#[trigger] after.rounds@[k].at_least(c)) is Some ==> after.discovered@.contains(c),
{
    assert forall|k: int, c: char|
        0 <= k < rows.len() && (#[trigger] after.rounds@[k].at_least(c)) is Some implies after.discovered@.contains(c) by {
        lemma_bound_has_a_source(before, after, rows, k, c);
        let j = choose|j: int| 0 <= j <= k && #[trigger] learns_count(before.word@, rows[j], c);
        assert(0 <= j < rows.len() && learns_count(before.word@, rows[j], c));
    }
}

} // verus!
