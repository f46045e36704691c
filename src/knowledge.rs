//! Per-round knowledge about the hidden word, kept as logs of facts in which
//! the last entry for a key wins.

use vstd::prelude::*;

verus! {

/// What is known of one letter at one position.
#[derive(Clone, Copy, Debug, PartialEq, Eq, Structural)]
pub enum CharacterState {
    Correct,
    Absent,
    Unknown,
}

/// The colour a tile or a key is shown with.
#[derive(Clone, Copy, Debug, PartialEq, Eq, Structural)]
pub enum Hint {
    Correct,
    Present,
    Absent,
}

/// One recorded observation: `character` at `position` has `state`.
#[derive(Clone, Copy, Debug, PartialEq, Eq, Structural)]
pub struct PositionFact {
    pub character: char,
    pub position: usize,
    pub state: CharacterState,
}

/// One recorded bound: the hidden word holds `character` at least `at_least` times.
#[derive(Clone, Copy, Debug, PartialEq, Eq, Structural)]
pub struct LetterCount {
    pub character: char,
    pub at_least: usize,
}

/// The state recorded last for `(c, i)` in an append-only log of facts.
pub open spec fn fact_for(facts: Seq<PositionFact>, c: char, i: int) -> Option<CharacterState>
    decreases facts.len(),
{
    if facts.len() == 0 {
        None
    } else if facts.last().character == c && facts.last().position as int == i {
        Some(facts.last().state)
    } else {
        fact_for(facts.drop_last(), c, i)
    }
}

/// The bound recorded last for `c` in an append-only log of bounds.
pub open spec fn count_for(counts: Seq<LetterCount>, c: char) -> Option<nat>
    decreases counts.len(),
{
    if counts.len() == 0 {
        None
    } else if counts.last().character == c {
        Some(counts.last().at_least as nat)
    } else {
        count_for(counts.drop_last(), c)
    }
}

/// Number of occurrences of `c` in `s`.
pub open spec fn occurrences(s: Seq<char>, c: char) -> nat
    decreases s.len(),
{
    if s.len() == 0 {
        0
    } else {
        occurrences(s.drop_last(), c) + if s.last() == c {
            1nat
        } else {
            0nat
        }
    }
}

proof fn lemma_fact_source(facts: Seq<PositionFact>, c: char, i: int)
    requires
        fact_for(facts, c, i) is Some,
    ensures
        exists|j: int|
            0 <= j < facts.len() && (#[trigger] facts[j]).character == c && facts[j].position
                == i,
    decreases facts.len(),
{
    if facts.last().character == c && facts.last().position as int == i {
        assert(facts[facts.len() - 1] == facts.last());
    } else {
        lemma_fact_source(facts.drop_last(), c, i);
        let j = choose|j: int|
            0 <= j < facts.drop_last().len() && (#[trigger] facts.drop_last()[j]).character == c
                && facts.drop_last()[j].position == i;
        assert(facts[j] == facts.drop_last()[j]);
    }
}

/// What one round knows: the facts per (letter, position) and the bounds per
/// letter, each kept as a log in which the last entry for a key wins.
pub struct RoundKnowledge {
    pub facts: Vec<PositionFact>,
    pub counts: Vec<LetterCount>,
}

impl RoundKnowledge {
    /// The state known for letter `c` at position `i`, if any.
    pub open spec fn state(&self, c: char, i: int) -> Option<CharacterState> {
        fact_for(self.facts@, c, i)
    }

    /// The smallest number of copies of `c` known to be in the hidden word, if any.
    pub open spec fn at_least(&self, c: char) -> Option<nat> {
        count_for(self.counts@, c)
    }

    /// The known bound for `c`, zero where none is recorded.
    pub open spec fn min_count(&self, c: char) -> nat {
        match self.at_least(c) {
            Some(n) => n,
            None => 0,
        }
    }

    /// Whether `c` has state `st` at some position.
    pub open spec fn somewhere(&self, c: char, st: CharacterState) -> bool {
        exists|i: int| #[trigger] self.state(c, i) == Some(st)
    }

    /// Both rounds know exactly the same.
    pub open spec fn same_as(&self, other: &RoundKnowledge) -> bool {
        &&& forall|c: char, i: int| #[trigger] self.state(c, i) == other.state(c, i)
        &&& forall|c: char| #[trigger] self.at_least(c) == other.at_least(c)
    }

    /// The round has recorded nothing.
    pub open spec fn knows_nothing(&self) -> bool {
        self.facts@.len() == 0 && self.counts@.len() == 0
    }

    /// A round that knows nothing yet.
    pub fn new() -> (r: RoundKnowledge)
        ensures
            r.facts@.len() == 0,
            r.counts@.len() == 0,
            forall|c: char, i: int| #[trigger] r.state(c, i) is None,
            forall|c: char| #[trigger] r.at_least(c) is None,
    {
        RoundKnowledge { facts: Vec::new(), counts: Vec::new() }
    }

    /// An exact copy of this round's knowledge.
    pub fn duplicate(&self) -> (r: RoundKnowledge)
        ensures
            r.facts@ == self.facts@,
            r.counts@ == self.counts@,
            r.same_as(self),
    {
        let mut facts: Vec<PositionFact> = Vec::new();
        let mut k: usize = 0;
        while k < self.facts.len()
            invariant
                k <= self.facts@.len(),
                facts@ == self.facts@.take(k as int),
            decreases self.facts@.len() - k,
        {
            facts.push(self.facts[k]);
            k = k + 1;
            assert(facts@ =~= self.facts@.take(k as int));
        }
        let mut counts: Vec<LetterCount> = Vec::new();
        let mut k: usize = 0;
        while k < self.counts.len()
            invariant
                k <= self.counts@.len(),
                counts@ == self.counts@.take(k as int),
            decreases self.counts@.len() - k,
        {
            counts.push(self.counts[k]);
            k = k + 1;
            assert(counts@ =~= self.counts@.take(k as int));
        }
        assert(facts@ =~= self.facts@);
        assert(counts@ =~= self.counts@);
        RoundKnowledge { facts, counts }
    }

    /// The state known for letter `c` at position `i`.
    pub fn state_of(&self, c: char, i: usize) -> (r: Option<CharacterState>)
        ensures
            r == self.state(c, i as int),
    {
        let mut k: usize = self.facts.len();
        assert(self.facts@.take(k as int) =~= self.facts@);
        while k > 0
            invariant
                k <= self.facts@.len(),
                fact_for(self.facts@, c, i as int) == fact_for(self.facts@.take(k as int), c, i as int),
            decreases k,
        {
            let f = self.facts[k - 1];
            assert(self.facts@.take(k as int).last() == f);
            assert(self.facts@.take(k as int).drop_last() =~= self.facts@.take(k - 1));
            if f.character == c && f.position == i {
                return Some(f.state);
            }
            k = k - 1;
        }
        None
    }

    /// The bound known for letter `c`.
    pub fn at_least_of(&self, c: char) -> (r: Option<usize>)
        ensures
            r is Some <==> self.at_least(c) is Some,
            r is Some ==> r->0 as nat == self.at_least(c)->0,
    {
        let mut k: usize = self.counts.len();
        assert(self.counts@.take(k as int) =~= self.counts@);
        while k > 0
            invariant
                k <= self.counts@.len(),
                count_for(self.counts@, c) == count_for(self.counts@.take(k as int), c),
            decreases k,
        {
            let n = self.counts[k - 1];
            assert(self.counts@.take(k as int).last() == n);
            assert(self.counts@.take(k as int).drop_last() =~= self.counts@.take(k - 1));
            if n.character == c {
                return Some(n.at_least);
            }
            k = k - 1;
        }
        None
    }

    /// Records that letter `c` has state `st` at position `i`.
    pub fn record_state(&mut self, c: char, i: usize, st: CharacterState)
        ensures
            final(self).counts@ == old(self).counts@,
            forall|d: char| #[trigger] final(self).at_least(d) == old(self).at_least(d),
            forall|d: char, j: int| #[trigger]
                final(self).state(d, j) == if d == c && j == i {
                    Some(st)
                } else {
                    old(self).state(d, j)
                },
    {
        self.facts.push(PositionFact { character: c, position: i, state: st });
        assert(self.facts@.drop_last() =~= old(self).facts@);
    }

    /// Records that the hidden word holds letter `c` at least `n` times.
    pub fn record_count(&mut self, c: char, n: usize)
        ensures
            final(self).facts@ == old(self).facts@,
            forall|d: char, j: int| #[trigger] final(self).state(d, j) == old(self).state(d, j),
            forall|d: char| #[trigger]
                final(self).at_least(d) == if d == c {
                    Some(n as nat)
                } else {
                    old(self).at_least(d)
                },
    {
        self.counts.push(LetterCount { character: c, at_least: n });
        assert(self.counts@.drop_last() =~= old(self).counts@);
    }

    /// Whether letter `c` has state `st` at some position.
    pub fn has_state_somewhere(&self, c: char, st: CharacterState) -> (r: bool)
        ensures
            r == self.somewhere(c, st),
    {
        let mut k: usize = 0;
        while k < self.facts.len()
            invariant
                k <= self.facts@.len(),
                forall|j: int|
                    0 <= j < k && (#[trigger] self.facts@[j]).character == c ==> self.state(
                        c,
                        self.facts@[j].position as int,
                    ) != Some(st),
            decreases self.facts@.len() - k,
        {
            let f = self.facts[k];
            if f.character == c {
                let s = self.state_of(c, f.position);
                if s == Some(st) {
                    return true;
                }
            }
            k = k + 1;
        }
        assert forall|i: int| #[trigger] self.state(c, i) != Some(st) by {
            if self.state(c, i) == Some(st) {
                lemma_fact_source(self.facts@, c, i);
            }
        }
        false
    }
}

/// Number of occurrences of `c` in `s`.
pub fn count_of(s: &Vec<char>, c: char) -> (r: usize)
    ensures
        r == occurrences(s@, c),
{
    let mut n: usize = 0;
    let mut k: usize = 0;
    while k < s.len()
        invariant
            k <= s@.len(),
            n == occurrences(s@.take(k as int), c),
            n <= k,
        decreases s@.len() - k,
    {
        assert(s@.take(k + 1).drop_last() =~= s@.take(k as int));
        if s[k] == c {
            n = n + 1;
        }
        k = k + 1;
    }
    assert(s@.take(k as int) =~= s@);
    n
}

/// Whether `c` occurs in `s`.
pub fn contains_char(s: &Vec<char>, c: char) -> (r: bool)
    ensures
        r == s@.contains(c),
{
    let mut k: usize = 0;
    while k < s.len()
        invariant
            k <= s@.len(),
            forall|j: int| 0 <= j < k ==> s@[j] != c,
        decreases s@.len() - k,
    {
        if s[k] == c {
            return true;
        }
        k = k + 1;
    }
    false
}

/// Adds `c` to a set of letters kept as a sequence without repeats.
pub fn add_char(set: &mut Vec<char>, c: char)
    ensures
        forall|d: char| #[trigger] final(set)@.contains(d) <==> old(set)@.contains(d) || d == c,
{
    if !contains_char(set, c) {
        set.push(c);
        assert forall|d: char| #[trigger] set@.contains(d) <==> old(set)@.contains(d) || d == c by {
            if old(set)@.contains(d) {
                let j = choose|j: int| 0 <= j < old(set)@.len() && old(set)@[j] == d;
                assert(set@[j] == d);
            }
            if d == c {
                assert(set@[set@.len() - 1] == c);
            }
        }
    }
}

} // verus!
