//! One game: the hidden word, the rows typed so far, the knowledge of every
//! round, and the transitions of submitting a row and starting anew.

use crate::evaluate::{discovers, learns_count, reveal_guess, reveals};
use crate::hints::{key_hint, map_current_row, map_guess_row, map_keyboard_state, row_hint, tile_hint};
use crate::knowledge::{Hint, RoundKnowledge};
use crate::words::{chars_of, lines_of, parse_words, views, words_of_length};
use rand::seq::SliceRandom;
use vstd::prelude::*;

verus! {

/// How a new word is picked and what happens to the last one.
#[derive(Clone, Copy, Debug, PartialEq, Eq, Structural)]
pub enum GameMode {
    /// A random word each game.
    Classic,
    /// A random word each game; a word just found opens the next game as its first row.
    Relay,
    /// One word per calendar day.
    DailyWord,
}

/// The mode a name stands for.
pub open spec fn mode_named(name: Seq<char>) -> Option<GameMode> {
    if name == "classic"@ {
        Some(GameMode::Classic)
    } else if name == "relay"@ {
        Some(GameMode::Relay)
    } else if name == "daily_word"@ {
        Some(GameMode::DailyWord)
    } else {
        None
    }
}

impl GameMode {
    /// The name the mode is stored under.
    pub fn name(&self) -> (r: &'static str)
        ensures
            mode_named(r@) == Some(*self),
    {
        proof {
            reveal_strlit("classic");
            reveal_strlit("relay");
            reveal_strlit("daily_word");
        }
        let r = match self {
            GameMode::Classic => "classic",
            GameMode::Relay => "relay",
            GameMode::DailyWord => "daily_word",
        };
        assert("classic"@ != "relay"@ && "classic"@ != "daily_word"@ && "relay"@ != "daily_word"@) by {
            assert("classic"@[0] != "relay"@[0]);
            assert("classic"@[0] != "daily_word"@[0]);
            assert("relay"@[0] != "daily_word"@[0]);
        }
        r
    }

    /// The mode stored under `name`, if any.
    pub fn from_name(name: &str) -> (r: Option<GameMode>)
        ensures
            r == mode_named(name@),
    {
        let text = chars_of(name);
        if same_word(&text, &chars_of("classic")) {
            Some(GameMode::Classic)
        } else if same_word(&text, &chars_of("relay")) {
            Some(GameMode::Relay)
        } else if same_word(&text, &chars_of("daily_word")) {
            Some(GameMode::DailyWord)
        } else {
            None
        }
    }
}

impl std::str::FromStr for GameMode {
    type Err = ();

    fn from_str(input: &str) -> Result<GameMode, ()> {
        match GameMode::from_name(input) {
            Some(mode) => Ok(mode),
            None => Err(()),
        }
    }
}

/// What the player is told.
#[derive(Clone, Debug, PartialEq, Eq)]
pub enum Message {
    Empty,
    /// The row was submitted with too few letters.
    TooShort,
    /// The row is not a word of the list.
    NotInWordList,
    /// The word was found.
    Found,
    /// The word of the day was found.
    FoundDaily,
    /// The last row was used up; the hidden word is shown.
    WordWas(Vec<char>),
    /// The word of the day is done.
    ComeBackTomorrow,
}

/// What submitting the row being composed did.
#[derive(Clone, Copy, Debug, PartialEq, Eq, Structural)]
pub enum GuessOutcome {
    /// Wrong length: nothing changed but the message.
    TooShort,
    /// Not in the word list: nothing changed but the flags and the message.
    NotInWordList,
    /// Evaluated; the next row is open.
    Continue,
    /// Evaluated; it was the hidden word.
    Won,
    /// Evaluated; it was the last row and not the hidden word.
    Lost,
}

/// Relies on rand's `SliceRandom::choose` on `thread_rng`: `None` for an
/// empty list, else one of its elements.
#[verifier::external_body]
fn choose_word(list: &Vec<Vec<char>>) -> (r: Option<Vec<char>>)
    ensures
        r is None <==> list@.len() == 0,
        r is Some ==> views(list@).contains(r->0@),
{
    list.choose(&mut rand::thread_rng()).cloned()
}

/// Whether two words are equal.
pub fn same_word(a: &Vec<char>, b: &Vec<char>) -> (r: bool)
    ensures
        r == (a@ == b@),
{
    if a.len() != b.len() {
        return false;
    }
    let mut k: usize = 0;
    while k < a.len()
        invariant
            k <= a@.len(),
            a@.len() == b@.len(),
            forall|j: int| 0 <= j < k ==> a@[j] == b@[j],
        decreases a@.len() - k,
    {
        if a[k] != b[k] {
            return false;
        }
        k = k + 1;
    }
    assert(a@ =~= b@);
    true
}

/// Whether `word` is in `list`.
pub fn is_listed(list: &Vec<Vec<char>>, word: &Vec<char>) -> (r: bool)
    ensures
        r == views(list@).contains(word@),
{
    let mut k: usize = 0;
    while k < list.len()
        invariant
            k <= list@.len(),
            forall|j: int| 0 <= j < k ==> #[trigger] views(list@)[j] != word@,
        decreases list@.len() - k,
    {
        if same_word(&list[k], word) {
            assert(views(list@)[k as int] == word@);
            return true;
        }
        k = k + 1;
    }
    false
}

/// `n` empty rows.
fn empty_rows(n: usize) -> (r: Vec<Vec<char>>)
    ensures
        r@.len() == n,
        forall|i: int| 0 <= i < n ==> (#[trigger] r@[i])@.len() == 0,
{
    let mut rows: Vec<Vec<char>> = Vec::new();
    let mut k: usize = 0;
    while k < n
        invariant
            k <= n,
            rows@.len() == k,
            forall|i: int| 0 <= i < k ==> (#[trigger] rows@[i])@.len() == 0,
        decreases n - k,
    {
        rows.push(Vec::new());
        k = k + 1;
    }
    rows
}

/// `n` rounds that know nothing.
fn empty_rounds(n: usize) -> (r: Vec<RoundKnowledge>)
    ensures
        r@.len() == n,
        forall|i: int| 0 <= i < n ==> (#[trigger] r@[i]).facts@.len() == 0 && r@[i].counts@.len() == 0,
{
    let mut rounds: Vec<RoundKnowledge> = Vec::new();
    let mut k: usize = 0;
    while k < n
        invariant
            k <= n,
            rounds@.len() == k,
            forall|i: int| 0 <= i < k ==> (#[trigger] rounds@[i]).facts@.len() == 0 && rounds@[i].counts@.len() == 0,
        decreases n - k,
    {
        rounds.push(RoundKnowledge::new());
        k = k + 1;
    }
    rounds
}

/// The state of one game.
pub struct Game {
    /// The words a row may be; each has `word_length` letters.
    pub word_list: Vec<Vec<char>>,
    /// The hidden word.
    pub word: Vec<char>,
    pub word_length: usize,
    pub max_guesses: usize,
    pub is_guessing: bool,
    pub is_winner: bool,
    /// The last submitted row was not in the word list.
    pub is_unknown: bool,
    /// The board was just cleared for a new game.
    pub is_reset: bool,
    pub game_mode: GameMode,
    pub previous_game_mode: GameMode,
    pub message: Message,
    /// What each round knows, one entry per row.
    pub rounds: Vec<RoundKnowledge>,
    /// Letters known to be in the hidden word, over the whole game.
    pub discovered: Vec<char>,
    /// The rows, one per allowed guess.
    pub guesses: Vec<Vec<char>>,
    /// The rows of the game before this one, up to its last open row.
    pub previous_guesses: Vec<Vec<char>>,
    /// The row being composed.
    pub current_guess: usize,
    /// Games won in a row.
    pub streak: usize,
}

impl Game {
    /// The shape every game keeps.
    pub open spec fn wf(&self) -> bool {
        &&& self.max_guesses >= 1
        &&& self.rounds@.len() == self.max_guesses
        &&& self.guesses@.len() == self.max_guesses
        &&& self.current_guess < self.max_guesses
        &&& self.word@.len() == self.word_length
        &&& forall|i: int| 0 <= i < self.guesses@.len() ==> (#[trigger] self.guesses@[i])@.len() <= self.word_length
        &&& forall|i: int| 0 <= i < self.word_list@.len() ==> (#[trigger] self.word_list@[i])@.len() == self.word_length
    }

    /// Every round knows nothing, no letter is discovered, no row is typed.
    pub open spec fn is_fresh(&self) -> bool {
        &&& forall|k: int| 0 <= k < self.rounds@.len() ==> (#[trigger] self.rounds@[k]).facts@.len() == 0 && self.rounds@[k].counts@.len() == 0
        &&& self.discovered@.len() == 0
        &&& forall|i: int| 0 <= i < self.guesses@.len() ==> (#[trigger] self.guesses@[i])@.len() == 0
        &&& self.current_guess == 0
    }

    /// The row being composed.
    pub open spec fn current_row(&self) -> Seq<char> {
        self.guesses@[self.current_guess as int]@
    }

    /// The row being composed is in the word list.
    pub open spec fn row_listed(&self) -> bool {
        views(self.word_list@).contains(self.current_row())
    }

    /// The row being composed has the full length and is in the word list.
    pub open spec fn row_accepted(&self) -> bool {
        self.current_row().len() == self.word_length && self.row_listed()
    }

    /// `after` differs from `before` at most in the rows, the message and the
    /// unknown-word flag.
    pub open spec fn same_but_rows(before: Game, after: Game) -> bool {
        &&& after.word_list@ == before.word_list@
        &&& after.word@ == before.word@
        &&& after.word_length == before.word_length
        &&& after.max_guesses == before.max_guesses
        &&& after.is_guessing == before.is_guessing
        &&& after.is_winner == before.is_winner
        &&& after.is_reset == before.is_reset
        &&& after.game_mode == before.game_mode
        &&& after.previous_game_mode == before.previous_game_mode
        &&& after.rounds@ == before.rounds@
        &&& after.discovered@ == before.discovered@
        &&& after.previous_guesses@ == before.previous_guesses@
        &&& after.current_guess == before.current_guess
        &&& after.streak == before.streak
    }

    /// A new classic game with hidden word `word`.
    pub fn with_word(word_list: Vec<Vec<char>>, word: Vec<char>, word_length: usize, max_guesses: usize) -> (r: Game)
        requires
            max_guesses >= 1,
            word@.len() == word_length,
            forall|i: int| 0 <= i < word_list@.len() ==> (#[trigger] word_list@[i])@.len() == word_length,
        ensures
            r.wf(),
            r.is_fresh(),
            r.word@ == word@,
            r.word_list@ == word_list@,
            r.word_length == word_length,
            r.max_guesses == max_guesses,
            r.is_guessing,
            !r.is_winner,
            !r.is_unknown,
            !r.is_reset,
            r.game_mode == GameMode::Classic,
            r.previous_game_mode == GameMode::Classic,
            r.message == Message::Empty,
            r.previous_guesses@.len() == 0,
            r.streak == 0,
    {
        Game {
            word_list,
            word,
            word_length,
            max_guesses,
            is_guessing: true,
            is_winner: false,
            is_unknown: false,
            is_reset: false,
            game_mode: GameMode::Classic,
            previous_game_mode: GameMode::Classic,
            message: Message::Empty,
            rounds: empty_rounds(max_guesses),
            discovered: Vec::new(),
            guesses: empty_rows(max_guesses),
            previous_guesses: Vec::new(),
            current_guess: 0,
            streak: 0,
        }
    }

    /// A new classic game with a word drawn at random from `word_list`.
    pub fn new(word_list: Vec<Vec<char>>, word_length: usize, max_guesses: usize) -> (r: Game)
        requires
            max_guesses >= 1,
            word_list@.len() > 0,
            forall|i: int| 0 <= i < word_list@.len() ==> (#[trigger] word_list@[i])@.len() == word_length,
        ensures
            r.wf(),
            r.is_fresh(),
            views(word_list@).contains(r.word@),
            r.word_list@ == word_list@,
            r.word_length == word_length,
            r.max_guesses == max_guesses,
            r.is_guessing,
            !r.is_winner,
            r.streak == 0,
    {
        let word = match choose_word(&word_list) {
            Some(w) => w,
            None => Vec::new(),
        };
        proof {
            let j = choose|j: int| 0 <= j < views(word_list@).len() && views(word_list@)[j] == word@;
            assert(word_list@[j]@ == word@);
        }
        Game::with_word(word_list, word, word_length, max_guesses)
    }

    /// Types letter `c` into the row being composed; `false` where the game
    /// is over or the row is full.
    pub fn key_press(&mut self, c: char) -> (r: bool)
        requires
            old(self).wf(),
        ensures
            final(self).wf(),
            r == (old(self).is_guessing && old(self).guesses@[old(self).current_guess as int]@.len() < old(self).word_length),
            r ==> final(self).guesses@ == old(self).guesses@.update(
                old(self).current_guess as int,
                final(self).guesses@[old(self).current_guess as int],
            ),
            r ==> final(self).guesses@[old(self).current_guess as int]@ == old(self).guesses@[old(self).current_guess as int]@.push(c),
            r ==> final(self).message == Message::Empty && !final(self).is_unknown,
            !r ==> *final(self) == *old(self),
            Game::same_but_rows(*old(self), *final(self)),
    {
        let cur = self.current_guess;
        if !self.is_guessing || self.guesses[cur].len() >= self.word_length {
            return false;
        }
        self.is_unknown = false;
        self.message = Message::Empty;
        let mut row = self.guesses[cur].clone();
        row.push(c);
        self.guesses.set(cur, row);
        true
    }

    /// Removes the last letter of the row being composed; `false` where the
    /// game is over or the row is empty.
    pub fn backspace(&mut self) -> (r: bool)
        requires
            old(self).wf(),
        ensures
            final(self).wf(),
            r == (old(self).is_guessing && old(self).guesses@[old(self).current_guess as int]@.len() > 0),
            r ==> final(self).guesses@ == old(self).guesses@.update(
                old(self).current_guess as int,
                final(self).guesses@[old(self).current_guess as int],
            ),
            r ==> final(self).guesses@[old(self).current_guess as int]@ == old(self).guesses@[old(self).current_guess as int]@.drop_last(),
            r ==> final(self).message == Message::Empty && !final(self).is_unknown,
            !r ==> *final(self) == *old(self),
            Game::same_but_rows(*old(self), *final(self)),
    {
        let cur = self.current_guess;
        if !self.is_guessing || self.guesses[cur].len() == 0 {
            return false;
        }
        self.is_unknown = false;
        self.message = Message::Empty;
        let mut row = self.guesses[cur].clone();
        row.pop();
        self.guesses.set(cur, row);
        true
    }

    /// Evaluates the row being composed into the current round, then copies
    /// that round's knowledge into the next round, if there is one.
    pub fn reveal_current_guess(&mut self)
        requires
            old(self).wf(),
        ensures
            final(self).wf(),
            final(self).rounds@.len() == old(self).rounds@.len(),
            reveals(
                old(self).rounds@[old(self).current_guess as int],
                final(self).rounds@[old(self).current_guess as int],
                old(self).word@,
                old(self).guesses@[old(self).current_guess as int]@,
            ),
            discovers(
                old(self).discovered@,
                final(self).discovered@,
                old(self).word@,
                old(self).guesses@[old(self).current_guess as int]@,
            ),
            old(self).current_guess + 1 < old(self).max_guesses ==> final(self).rounds@[old(self).current_guess + 1].facts@
                == final(self).rounds@[old(self).current_guess as int].facts@
                && final(self).rounds@[old(self).current_guess + 1].counts@
                == final(self).rounds@[old(self).current_guess as int].counts@,
            forall|k: int|
                0 <= k < old(self).rounds@.len() && k != old(self).current_guess && k != old(self).current_guess + 1
                    ==> #[trigger] final(self).rounds@[k] == old(self).rounds@[k],
            final(self).guesses@ == old(self).guesses@,
            final(self).word@ == old(self).word@,
            final(self).word_list@ == old(self).word_list@,
            final(self).current_guess == old(self).current_guess,
            final(self).word_length == old(self).word_length,
            final(self).max_guesses == old(self).max_guesses,
            final(self).is_guessing == old(self).is_guessing,
            final(self).is_winner == old(self).is_winner,
            final(self).is_unknown == old(self).is_unknown,
            final(self).is_reset == old(self).is_reset,
            final(self).streak == old(self).streak,
            final(self).message == old(self).message,
            final(self).game_mode == old(self).game_mode,
            final(self).previous_game_mode == old(self).previous_game_mode,
            final(self).previous_guesses@ == old(self).previous_guesses@,
            Game::evaluated_step(*old(self), *final(self)),
    {
        let cur = self.current_guess;
        let mut round = self.rounds[cur].duplicate();
        let guess = self.guesses[cur].clone();
        reveal_guess(&mut round, &mut self.discovered, &self.word, &guess);
        if cur + 1 < self.max_guesses {
            let next = round.duplicate();
            self.rounds.set(cur + 1, next);
        }
        self.rounds.set(cur, round);
    }

    /// Submits the row being composed.
    ///
    /// A row of the wrong length or outside the word list changes nothing
    /// but the message. Otherwise it is evaluated; the game is won where it
    /// is the hidden word, lost where it was the last row, and else the next
    /// row opens.
    pub fn submit_guess(&mut self) -> (r: GuessOutcome)
        requires
            old(self).wf(),
        ensures
            final(self).wf(),
            old(self).current_row().len() != old(self).word_length ==> r == GuessOutcome::TooShort
                && final(self).message == Message::TooShort
                && final(self).rounds@ == old(self).rounds@
                && final(self).current_guess == old(self).current_guess,
            old(self).current_row().len() == old(self).word_length && !old(self).row_listed() ==> r
                == GuessOutcome::NotInWordList
                && final(self).is_unknown
                && final(self).message == Message::NotInWordList
                && final(self).rounds@ == old(self).rounds@
                && final(self).current_guess == old(self).current_guess,
            old(self).row_accepted() ==> reveals(
                old(self).rounds@[old(self).current_guess as int],
                final(self).rounds@[old(self).current_guess as int],
                old(self).word@,
                old(self).current_row(),
            ),
            old(self).row_accepted() ==> discovers(
                old(self).discovered@,
                final(self).discovered@,
                old(self).word@,
                old(self).current_row(),
            ),
            !old(self).row_accepted() ==> Game::same_but_rows(*old(self), *final(self)),
            old(self).row_accepted() ==> Game::evaluated_step(*old(self), *final(self)),
            old(self).row_accepted() ==> !final(self).is_unknown && !final(self).is_reset
                && final(self).is_winner == (old(self).current_row() == old(self).word@),
            old(self).row_accepted() && old(self).current_row() == old(self).word@ ==> r == GuessOutcome::Won
                && !final(self).is_guessing
                && final(self).current_guess == old(self).current_guess
                && final(self).message == (if old(self).game_mode == GameMode::DailyWord {
                    Message::FoundDaily
                } else {
                    Message::Found
                })
                && final(self).streak == (if old(self).streak < usize::MAX {
                    old(self).streak + 1
                } else {
                    old(self).streak as int
                }),
            old(self).row_accepted() && old(self).current_row() != old(self).word@ && old(self).current_guess
                == old(self).max_guesses - 1 ==> r == GuessOutcome::Lost
                && !final(self).is_guessing
                && final(self).current_guess == old(self).current_guess
                && final(self).message is WordWas
                && final(self).message->WordWas_0@ == old(self).word@
                && final(self).streak == 0,
            old(self).row_accepted() && old(self).current_row() != old(self).word@ && old(self).current_guess
                < old(self).max_guesses - 1 ==> r == GuessOutcome::Continue
                && final(self).is_guessing == old(self).is_guessing
                && final(self).current_guess == old(self).current_guess + 1
                && final(self).message == Message::Empty
                && final(self).streak == old(self).streak
                && final(self).rounds@[old(self).current_guess + 1].facts@ == final(self).rounds@[old(self).current_guess as int].facts@
                && final(self).rounds@[old(self).current_guess + 1].counts@ == final(self).rounds@[old(self).current_guess as int].counts@,
            final(self).guesses@ == old(self).guesses@,
            final(self).word@ == old(self).word@,
            final(self).word_list@ == old(self).word_list@,
            final(self).word_length == old(self).word_length,
            final(self).max_guesses == old(self).max_guesses,
            final(self).game_mode == old(self).game_mode,
            final(self).previous_game_mode == old(self).previous_game_mode,
            final(self).previous_guesses@ == old(self).previous_guesses@,
    {
        let cur = self.current_guess;
        if self.guesses[cur].len() != self.word_length {
            self.message = Message::TooShort;
            return GuessOutcome::TooShort;
        }
        if !is_listed(&self.word_list, &self.guesses[cur]) {
            self.is_unknown = true;
            self.message = Message::NotInWordList;
            return GuessOutcome::NotInWordList;
        }
        self.is_reset = false;
        self.is_unknown = false;
        self.is_winner = same_word(&self.guesses[cur], &self.word);
        self.reveal_current_guess();
        let is_game_ended = self.is_winner || cur == self.max_guesses - 1;
        if is_game_ended {
            self.is_guessing = false;
            if self.is_winner {
                if self.streak < usize::MAX {
                    self.streak = self.streak + 1;
                }
                self.message = if self.game_mode == GameMode::DailyWord {
                    Message::FoundDaily
                } else {
                    Message::Found
                };
                GuessOutcome::Won
            } else {
                self.message = Message::WordWas(self.word.clone());
                self.streak = 0;
                GuessOutcome::Lost
            }
        } else {
            self.message = Message::Empty;
            self.current_guess = cur + 1;
            GuessOutcome::Continue
        }
    }

    /// The next game continues from a word just found: relay mode, a won
    /// game whose word has the current length, and room for a second row.
    pub open spec fn relays(&self) -> bool {
        &&& self.game_mode == GameMode::Relay
        &&& self.is_winner
        &&& self.word@.len() == self.word_length
        &&& self.max_guesses >= 2
    }

    /// Clears the board for a new game with hidden word `next_word`.
    fn restart(&mut self, next_word: Vec<char>)
        requires
            old(self).max_guesses >= 1,
            next_word@.len() == old(self).word_length,
            forall|i: int| 0 <= i < old(self).word_list@.len() ==> (#[trigger] old(self).word_list@[i])@.len() == old(self).word_length,
        ensures
            final(self).wf(),
            final(self).word@ == next_word@,
            final(self).word_list@ == old(self).word_list@,
            final(self).word_length == old(self).word_length,
            final(self).max_guesses == old(self).max_guesses,
            views(final(self).previous_guesses@) == views(old(self).guesses@).take(
                if old(self).current_guess <= old(self).guesses@.len() {
                    old(self).current_guess as int
                } else {
                    old(self).guesses@.len() as int
                },
            ),
            final(self).is_guessing,
            !final(self).is_winner,
            !final(self).is_unknown,
            final(self).is_reset,
            final(self).message == Message::Empty,
            final(self).streak == old(self).streak,
            final(self).game_mode == old(self).game_mode,
            final(self).previous_game_mode == old(self).previous_game_mode,
            !old(self).relays() ==> final(self).is_fresh(),
            old(self).relays() ==> {
                &&& final(self).current_guess == 1
                &&& final(self).guesses@[0]@ == old(self).word@
                &&& forall|i: int| 1 <= i < final(self).guesses@.len() ==> (#[trigger] final(self).guesses@[i])@.len() == 0
                &&& forall|r0: RoundKnowledge| #[trigger] r0.knows_nothing() ==> reveals(r0, final(self).rounds@[0], next_word@, old(self).word@)
                &&& final(self).rounds@[1].facts@ == final(self).rounds@[0].facts@
                &&& final(self).rounds@[1].counts@ == final(self).rounds@[0].counts@
                &&& forall|k: int| 2 <= k < final(self).rounds@.len() ==> (#[trigger] final(self).rounds@[k]).facts@.len() == 0
                    && final(self).rounds@[k].counts@.len() == 0
                &&& discovers(Seq::empty(), final(self).discovered@, next_word@, old(self).word@)
            },
    {
        let relay = self.game_mode == GameMode::Relay && self.is_winner && self.word.len() == self.word_length
            && self.max_guesses >= 2;
        let keep = if self.current_guess <= self.guesses.len() {
            self.current_guess
        } else {
            self.guesses.len()
        };
        let mut previous: Vec<Vec<char>> = Vec::new();
        let mut k: usize = 0;
        while k < keep
            invariant
                keep <= self.guesses@.len(),
                k <= keep,
                views(previous@) == views(self.guesses@).take(k as int),
            decreases keep - k,
        {
            let row = self.guesses[k].clone();
            let ghost before = previous@;
            previous.push(row);
            assert(views(previous@) =~= views(before).push(row@));
            k = k + 1;
            assert(views(previous@) =~= views(self.guesses@).take(k as int));
        }
        let previous_word = self.word.clone();
        self.word = next_word;
        self.previous_guesses = previous;
        self.rounds = empty_rounds(self.max_guesses);
        self.discovered = Vec::new();
        self.guesses = empty_rows(self.max_guesses);
        self.current_guess = 0;
        if relay {
            self.guesses.set(0, previous_word);
            let ghost r0 = self.rounds@[0];
            self.reveal_current_guess();
            self.current_guess = 1;
            proof {
                assert forall|e: RoundKnowledge| #[trigger] e.knows_nothing() implies reveals(e, self.rounds@[0], self.word@, previous_word@) by {
                    assert forall|c: char, i: int| #[trigger] e.state(c, i) == r0.state(c, i) by {}
                    assert forall|c: char| #[trigger] e.at_least(c) == r0.at_least(c) by {}
                }
            }
        }
        self.is_guessing = true;
        self.is_winner = false;
        self.is_unknown = false;
        self.is_reset = true;
        self.message = Message::Empty;
    }

    /// Starts a new game with hidden word `next_word`, of the current length.
    pub fn start_new_game(&mut self, next_word: Vec<char>)
        requires
            old(self).wf(),
            next_word@.len() == old(self).word_length,
        ensures
            final(self).wf(),
            final(self).word@ == next_word@,
            final(self).word_list@ == old(self).word_list@,
            final(self).word_length == old(self).word_length,
            final(self).max_guesses == old(self).max_guesses,
            views(final(self).previous_guesses@) == views(old(self).guesses@).take(old(self).current_guess as int),
            final(self).is_guessing && !final(self).is_winner && final(self).is_reset,
            final(self).message == Message::Empty,
            final(self).streak == old(self).streak,
            final(self).game_mode == old(self).game_mode,
            !old(self).relays() ==> final(self).is_fresh(),
            old(self).relays() ==> {
                &&& final(self).current_guess == 1
                &&& final(self).guesses@[0]@ == old(self).word@
                &&& forall|r0: RoundKnowledge| #[trigger] r0.knows_nothing() ==> reveals(r0, final(self).rounds@[0], next_word@, old(self).word@)
                &&& final(self).rounds@[1].facts@ == final(self).rounds@[0].facts@
                &&& final(self).rounds@[1].counts@ == final(self).rounds@[0].counts@
                &&& discovers(Seq::empty(), final(self).discovered@, next_word@, old(self).word@)
            },
    {
        self.restart(next_word);
    }

    /// Starts a new game with a word drawn at random from the word list.
    pub fn start_random_game(&mut self)
        requires
            old(self).wf(),
            old(self).word_list@.len() > 0,
        ensures
            final(self).wf(),
            views(old(self).word_list@).contains(final(self).word@),
            final(self).word_list@ == old(self).word_list@,
            final(self).word_length == old(self).word_length,
            final(self).is_guessing && !final(self).is_winner,
            final(self).streak == old(self).streak,
            !old(self).relays() ==> final(self).is_fresh(),
            old(self).relays() ==> final(self).current_guess == 1 && final(self).guesses@[0]@ == old(self).word@,
    {
        let next = match choose_word(&self.word_list) {
            Some(w) => w,
            None => Vec::new(),
        };
        proof {
            let j = choose|j: int| 0 <= j < views(self.word_list@).len() && views(self.word_list@)[j] == next@;
            assert(self.word_list@[j]@ == next@);
        }
        self.restart(next);
    }

    /// Starts a new game with hidden word `next_word`; where its length is
    /// not the current one, the word list is first rebuilt from `words` for
    /// that length.
    pub fn start_game_with_word(&mut self, words: &str, next_word: Vec<char>)
        requires
            old(self).wf(),
        ensures
            final(self).wf(),
            final(self).word@ == next_word@,
            final(self).word_length == next_word@.len(),
            next_word@.len() == old(self).word_length ==> final(self).word_list@ == old(self).word_list@,
            next_word@.len() != old(self).word_length ==> views(final(self).word_list@) == words_of_length(
                words@,
                next_word@.len(),
            ),
            final(self).is_guessing && !final(self).is_winner,
            final(self).streak == old(self).streak,
            !old(self).relays() ==> final(self).is_fresh(),
    {
        if next_word.len() != self.word_length {
            let list = parse_words(words, next_word.len());
            proof { lemma_words_have_length(list@, words@, next_word@.len()); }
            self.word_length = next_word.len();
            self.word_list = list;
            assert(!self.relays());
        }
        self.restart(next_word);
    }

    /// Switches to words of `new_length` letters, taken from `words`, and
    /// starts a new game with one of them drawn at random; `false`, with
    /// nothing changed, where `words` has none of that length.
    pub fn change_word_length(&mut self, words: &str, new_length: usize) -> (r: bool)
        requires
            old(self).wf(),
        ensures
            final(self).wf(),
            r == (words_of_length(words@, new_length as nat).len() > 0),
            !r ==> *final(self) == *old(self),
            r ==> final(self).word_length == new_length,
            r ==> views(final(self).word_list@) == words_of_length(words@, new_length as nat),
            r ==> views(final(self).word_list@).contains(final(self).word@),
            r ==> final(self).streak == 0 && final(self).is_guessing && !final(self).is_winner,
            r ==> !old(self).relays() || new_length != old(self).word_length ==> final(self).is_fresh(),
    {
        let list = parse_words(words, new_length);
        if list.len() == 0 {
            return false;
        }
        proof { lemma_words_have_length(list@, words@, new_length as nat); }
        let next = match choose_word(&list) {
            Some(w) => w,
            None => Vec::new(),
        };
        proof {
            let j = choose|j: int| 0 <= j < views(list@).len() && views(list@)[j] == next@;
            assert(list@[j]@ == next@);
        }
        self.word_length = new_length;
        self.word_list = list;
        self.streak = 0;
        self.restart(next);
        true
    }

    /// Switches to `mode`, remembering the mode left.
    pub fn set_game_mode(&mut self, mode: GameMode)
        ensures
            final(self).game_mode == mode,
            final(self).previous_game_mode == old(self).game_mode,
            final(self).message == Message::Empty,
            final(self).word@ == old(self).word@,
            final(self).word_list@ == old(self).word_list@,
            final(self).word_length == old(self).word_length,
            final(self).max_guesses == old(self).max_guesses,
            final(self).rounds@ == old(self).rounds@,
            final(self).guesses@ == old(self).guesses@,
            final(self).current_guess == old(self).current_guess,
            final(self).is_guessing == old(self).is_guessing,
            final(self).is_winner == old(self).is_winner,
            final(self).is_unknown == old(self).is_unknown,
            final(self).is_reset == old(self).is_reset,
            final(self).streak == old(self).streak,
    {
        self.previous_game_mode = self.game_mode;
        self.game_mode = mode;
        self.message = Message::Empty;
    }

    /// Hints for `guess` shown as row `guess_round`.
    pub fn map_guess_row(&self, guess: &Vec<char>, guess_round: usize) -> (r: Vec<Option<Hint>>)
        requires
            guess_round < self.rounds@.len(),
            guess@.len() <= self.word_length,
        ensures
            r@.len() == self.word_length,
            forall|i: int| 0 <= i < guess@.len() ==> #[trigger] r@[i] == row_hint(self.rounds@[guess_round as int], guess@, i),
            forall|i: int| guess@.len() <= i < self.word_length ==> #[trigger] r@[i] is None,
    {
        map_guess_row(&self.rounds[guess_round], guess, self.word_length)
    }

    /// The hint of letter `c` typed at position `index` of the row being composed.
    pub fn map_current_row(&self, c: char, index: usize) -> (r: Option<Hint>)
        requires
            self.wf(),
        ensures
            r == tile_hint(self.rounds@[self.current_guess as int], self.discovered@, c, index as int),
    {
        map_current_row(&self.rounds[self.current_guess], &self.discovered, c, index)
    }

    /// The hint of the key for letter `c`.
    pub fn map_keyboard_state(&self, c: char) -> (r: Option<Hint>)
        requires
            self.wf(),
        ensures
            r == key_hint(self.rounds@[self.current_guess as int], self.discovered@, c),
    {
        map_keyboard_state(&self.rounds[self.current_guess], &self.discovered, c)
    }

    /// The knowledge of `after` is that of `before` with `rows` evaluated in
    /// order: row `k` into round `k`, which starts as a copy of round `k - 1`
    /// (round 0 as it was in `before`); the round after the last row starts
    /// as a copy of it.
    pub open spec fn knowledge_replayed(before: Game, after: Game, rows: Seq<Seq<char>>) -> bool {
        let n = rows.len() as int;
        &&& after.rounds@.len() == before.rounds@.len()
        &&& n > 0 ==> reveals(before.rounds@[0], after.rounds@[0], before.word@, rows[0])
        &&& forall|k: int| 0 < k < n ==> reveals(after.rounds@[k - 1], #[trigger] after.rounds@[k], before.word@, rows[k])
        &&& 0 < n < after.rounds@.len() ==> after.rounds@[n].facts@ == after.rounds@[n - 1].facts@
            && after.rounds@[n].counts@ == after.rounds@[n - 1].counts@
        &&& forall|c: char| #[trigger] after.discovered@.contains(c) <==> before.discovered@.contains(c)
            || exists|k: int| 0 <= k < n && #[trigger] learns_count(before.word@, rows[k], c)
    }

    /// `after` is `before` with `rows` replayed in order: row `k` is typed as
    /// row `k` and evaluated as `knowledge_replayed` says.
    pub open spec fn replayed(before: Game, after: Game, rows: Seq<Seq<char>>) -> bool {
        &&& forall|k: int| 0 <= k < rows.len() ==> (#[trigger] after.guesses@[k])@ == rows[k]
        &&& Game::knowledge_replayed(before, after, rows)
    }

    /// `after` is `before` with its row being composed evaluated into the
    /// current round, that round copied into the next one, and every other
    /// round untouched.
    pub open spec fn evaluated_step(before: Game, after: Game) -> bool {
        let cur = before.current_guess as int;
        &&& after.word@ == before.word@
        &&& after.rounds@.len() == before.rounds@.len()
        &&& reveals(before.rounds@[cur], after.rounds@[cur], before.word@, before.current_row())
        &&& cur + 1 < after.rounds@.len() ==> after.rounds@[cur + 1].facts@ == after.rounds@[cur].facts@
            && after.rounds@[cur + 1].counts@ == after.rounds@[cur].counts@
        &&& forall|k: int|
            0 <= k < after.rounds@.len() && k != cur && k != cur + 1 ==> #[trigger] after.rounds@[k]
                == before.rounds@[k]
        &&& discovers(before.discovered@, after.discovered@, before.word@, before.current_row())
    }

    /// Rebuilds the knowledge of a resumed game by evaluating `rows` in
    /// order; `false`, with nothing changed, where there are more rows than
    /// the game allows or a row is longer than the word.
    pub fn replay(&mut self, rows: &Vec<Vec<char>>) -> (r: bool)
        requires
            old(self).wf(),
        ensures
            final(self).wf(),
            r == (rows@.len() <= old(self).max_guesses && forall|k: int| 0 <= k < rows@.len() ==> (#[trigger] rows@[k])@.len() <= old(self).word_length),
            !r ==> *final(self) == *old(self),
            r ==> Game::replayed(*old(self), *final(self), views(rows@)),
            r && rows@.len() > 0 ==> final(self).current_guess == rows@.len() - 1,
            final(self).word@ == old(self).word@,
            final(self).word_length == old(self).word_length,
            final(self).max_guesses == old(self).max_guesses,
            final(self).is_guessing == old(self).is_guessing,
            final(self).is_winner == old(self).is_winner,
            final(self).streak == old(self).streak,
    {
        if rows.len() > self.max_guesses {
            return false;
        }
        let mut k: usize = 0;
        while k < rows.len()
            invariant
                *self == *old(self),
                self.wf(),
                k <= rows@.len(),
                forall|j: int| 0 <= j < k ==> (#[trigger] rows@[j])@.len() <= self.word_length,
            decreases rows@.len() - k,
        {
            if rows[k].len() > self.word_length {
                return false;
            }
            k = k + 1;
        }
        let ghost start = *self;
        let ghost seqs = views(rows@);
        let mut i: usize = 0;
        while i < rows.len()
            invariant
                self.wf(),
                i <= rows@.len(),
                rows@.len() <= self.max_guesses,
                forall|j: int| 0 <= j < rows@.len() ==> (#[trigger] rows@[j])@.len() <= self.word_length,
                seqs == views(rows@),
                self.word@ == start.word@,
                self.word_length == start.word_length,
                self.max_guesses == start.max_guesses,
                self.is_guessing == start.is_guessing,
                self.is_winner == start.is_winner,
                self.streak == start.streak,
                self.rounds@.len() == start.rounds@.len(),
                i > 0 ==> self.current_guess == i - 1,
                forall|j: int| 0 <= j < i ==> (#[trigger] self.guesses@[j])@ == seqs[j],
                i > 0 ==> reveals(start.rounds@[0], self.rounds@[0], start.word@, seqs[0]),
                forall|j: int| 0 < j < i ==> reveals(self.rounds@[j - 1], #[trigger] self.rounds@[j], start.word@, seqs[j]),
                0 < i < self.rounds@.len() ==> self.rounds@[i as int].facts@ == self.rounds@[i - 1].facts@
                    && self.rounds@[i as int].counts@ == self.rounds@[i - 1].counts@,
                i == 0 ==> self.rounds@[0] == start.rounds@[0],
                forall|j: int| i < j < self.rounds@.len() ==> #[trigger] self.rounds@[j] == start.rounds@[j],
                forall|c: char| #[trigger] self.discovered@.contains(c) <==> start.discovered@.contains(c)
                    || exists|j: int| 0 <= j < i && #[trigger] learns_count(start.word@, seqs[j], c),
            decreases rows@.len() - i,
        {
            assert(seqs[i as int] == rows@[i as int]@);
            let row = rows[i].clone();
            self.guesses.set(i, row);
            self.current_guess = i;
            let ghost prev = *self;
            self.reveal_current_guess();
            proof {
                if i > 0 {
                    assert forall|c: char, j: int| #[trigger] prev.rounds@[i as int].state(c, j)
                        == self.rounds@[i - 1].state(c, j) by {}
                    assert forall|c: char| #[trigger] prev.rounds@[i as int].at_least(c)
                        == self.rounds@[i - 1].at_least(c) by {}
                }
                assert forall|c: char| #[trigger] self.discovered@.contains(c) <==> start.discovered@.contains(c)
                    || exists|j: int| 0 <= j < i + 1 && #[trigger] learns_count(start.word@, seqs[j], c) by {
                    if exists|j: int| 0 <= j < i + 1 && #[trigger] learns_count(start.word@, seqs[j], c) {
                        let j = choose|j: int| 0 <= j < i + 1 && #[trigger] learns_count(start.word@, seqs[j], c);
                        if j < i {
                            assert(exists|j: int| 0 <= j < i && #[trigger] learns_count(start.word@, seqs[j], c));
                        }
                    }
                    if exists|j: int| 0 <= j < i && #[trigger] learns_count(start.word@, seqs[j], c) {
                        let j = choose|j: int| 0 <= j < i && #[trigger] learns_count(start.word@, seqs[j], c);
                        assert(0 <= j < i + 1 && learns_count(start.word@, seqs[j], c));
                    }
                    if learns_count(start.word@, seqs[i as int], c) {
                        assert(0 <= i < i + 1 && learns_count(start.word@, seqs[i as int], c));
                    }
                }
            }
            i = i + 1;
        }
        true
    }
}

/// Every word of a list made by `parse_words` has the length asked for.
proof fn lemma_words_have_length(list: Seq<Vec<char>>, text: Seq<char>, len: nat)
    requires
        views(list) == words_of_length(text, len),
    ensures
        forall|i: int| 0 <= i < list.len() ==> (#[trigger] list[i])@.len() == len,
{
    let pred = |l: Seq<char>| l.len() == len;
    assert forall|i: int| 0 <= i < list.len() implies (#[trigger] list[i])@.len() == len by {
        assert(views(list)[i] == list[i]@);
        lines_of(text).lemma_filter_pred(pred, i);
    }
}

} // verus!
