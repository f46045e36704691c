//! Word lists and stored rows: splitting text into lines or comma separated
//! fields, and picking the words of one length.

use vstd::prelude::*;

verus! {

/// The views of a sequence of words.
pub open spec fn views(v: Seq<Vec<char>>) -> Seq<Seq<char>> {
    v.map_values(|w: Vec<char>| w@)
}

/// `line` without one trailing carriage return.
pub open spec fn strip_cr(line: Seq<char>) -> Seq<char> {
    if line.len() > 0 && line.last() == '\r' {
        line.drop_last()
    } else {
        line
    }
}

/// Reading `s` from the left: the lines ended by `'\n'` so far, and the
/// characters read since the last `'\n'`.
pub open spec fn scan_lines(s: Seq<char>) -> (Seq<Seq<char>>, Seq<char>)
    decreases s.len(),
{
    if s.len() == 0 {
        (Seq::empty(), Seq::empty())
    } else {
        let (done, cur) = scan_lines(s.drop_last());
        if s.last() == '\n' {
            (done.push(strip_cr(cur)), Seq::empty())
        } else {
            (done, cur.push(s.last()))
        }
    }
}

/// The lines of `s`: split at `'\n'`, each without the `'\r'` that stood
/// before its `'\n'`; a final `'\n'` does not start another line.
pub open spec fn lines_of(s: Seq<char>) -> Seq<Seq<char>> {
    let (done, cur) = scan_lines(s);
    if cur.len() == 0 {
        done
    } else {
        done.push(cur)
    }
}

/// The lines of `text` that hold exactly `len` characters, in order.
pub open spec fn words_of_length(text: Seq<char>, len: nat) -> Seq<Seq<char>> {
    lines_of(text).filter(|l: Seq<char>| l.len() == len)
}

/// Relies on `str::chars`: it yields the characters of the string in order.
#[verifier::external_body]
pub(crate) fn chars_of(s: &str) -> (r: Vec<char>)
    ensures
        r@ == s@,
{
    s.chars().collect()
}

/// The characters of `line` without one trailing carriage return.
fn without_cr(line: Vec<char>) -> (r: Vec<char>)
    ensures
        r@ == strip_cr(line@),
{
    let mut line = line;
    if line.len() > 0 && line[line.len() - 1] == '\r' {
        line.pop();
    }
    line
}

/// Splits `text` into its lines.
pub fn split_lines(text: &Vec<char>) -> (r: Vec<Vec<char>>)
    ensures
        views(r@) == lines_of(text@),
{
    let mut done: Vec<Vec<char>> = Vec::new();
    let mut cur: Vec<char> = Vec::new();
    let mut k: usize = 0;
    while k < text.len()
        invariant
            k <= text@.len(),
            views(done@) == scan_lines(text@.take(k as int)).0,
            cur@ == scan_lines(text@.take(k as int)).1,
        decreases text@.len() - k,
    {
        assert(text@.take(k + 1).drop_last() =~= text@.take(k as int));
        let c = text[k];
        if c == '\n' {
            let line = without_cr(cur);
            let ghost prev = done@;
            done.push(line);
            assert(views(done@) =~= views(prev).push(line@));
            cur = Vec::new();
        } else {
            cur.push(c);
        }
        k = k + 1;
    }
    assert(text@.take(k as int) =~= text@);
    if cur.len() > 0 {
        let ghost prev = done@;
        done.push(cur);
        assert(views(done@) =~= views(prev).push(lines_of(text@).last()));
    }
    done
}

/// The words of `words` (one per line) that have `word_length` characters.
pub fn parse_words(words: &str, word_length: usize) -> (r: Vec<Vec<char>>)
    ensures
        views(r@) == words_of_length(words@, word_length as nat),
{
    let text = chars_of(words);
    let lines = split_lines(&text);
    let ghost all = lines_of(text@);
    let ghost pred = |l: Seq<char>| l.len() == word_length as nat;
    let mut out: Vec<Vec<char>> = Vec::new();
    let mut k: usize = 0;
    while k < lines.len()
        invariant
            k <= lines@.len(),
            views(lines@) == all,
            all == lines_of(text@),
            views(out@) == all.take(k as int).filter(pred),
            pred == (|l: Seq<char>| l.len() == word_length as nat),
        decreases lines@.len() - k,
    {
        proof {
            reveal(Seq::filter);
            assert(all.take(k + 1).drop_last() =~= all.take(k as int));
            assert(all.take(k + 1).last() == all[k as int]);
            assert(views(lines@)[k as int] == lines@[k as int]@);
        }
        let line = &lines[k];
        assert(all[k as int] == line@);
        if line.len() == word_length {
            let ghost prev = out@;
            let copy = line.clone();
            assert(copy@ == line@);
            out.push(copy);
            assert(views(out@) =~= views(prev).push(line@));
            assert(pred(all[k as int]));
        } else {
            assert(!pred(all[k as int]));
        }
        k = k + 1;
    }
    assert(all.take(k as int) =~= all);
    out
}

/// Line `index` of `words`, if there is one.
pub fn daily_word(words: &str, index: usize) -> (r: Option<Vec<char>>)
    ensures
        r is Some <==> index < lines_of(words@).len(),
        r is Some ==> r->0@ == lines_of(words@)[index as int],
{
    let text = chars_of(words);
    let lines = split_lines(&text);
    if index < lines.len() {
        assert(views(lines@)[index as int] == lines@[index as int]@);
        Some(lines[index].clone())
    } else {
        None
    }
}

/// Reading `s` from the left: the fields ended by `','` so far, and the
/// characters read since the last `','`.
pub open spec fn scan_fields(s: Seq<char>) -> (Seq<Seq<char>>, Seq<char>)
    decreases s.len(),
{
    if s.len() == 0 {
        (Seq::empty(), Seq::empty())
    } else {
        let (done, cur) = scan_fields(s.drop_last());
        if s.last() == ',' {
            (done.push(cur), Seq::empty())
        } else {
            (done, cur.push(s.last()))
        }
    }
}

/// The fields of `s` separated by `','`; empty fields count, and an empty
/// text is one empty field.
pub open spec fn fields_of(s: Seq<char>) -> Seq<Seq<char>> {
    scan_fields(s).0.push(scan_fields(s).1)
}

/// Splits a comma separated list of rows, as a game's rows are stored.
pub fn split_rows(text: &str) -> (r: Vec<Vec<char>>)
    ensures
        views(r@) == fields_of(text@),
{
    let chars = chars_of(text);
    let mut done: Vec<Vec<char>> = Vec::new();
    let mut cur: Vec<char> = Vec::new();
    let mut k: usize = 0;
    while k < chars.len()
        invariant
            k <= chars@.len(),
            chars@ == text@,
            views(done@) == scan_fields(chars@.take(k as int)).0,
            cur@ == scan_fields(chars@.take(k as int)).1,
        decreases chars@.len() - k,
    {
        assert(chars@.take(k + 1).drop_last() =~= chars@.take(k as int));
        let c = chars[k];
        if c == ',' {
            let ghost prev = done@;
            let ghost field = cur@;
            done.push(cur);
            assert(views(done@) =~= views(prev).push(field));
            cur = Vec::new();
        } else {
            cur.push(c);
        }
        k = k + 1;
    }
    assert(chars@.take(k as int) =~= chars@);
    let ghost prev = done@;
    let ghost field = cur@;
    done.push(cur);
    assert(views(done@) =~= views(prev).push(field));
    done
}

} // verus!
