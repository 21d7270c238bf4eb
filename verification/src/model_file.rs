//! The text format of `.model` files: one cube per line, as three numbers
//! (position) or six (position and color), separated by whitespace; blank
//! lines and lines starting with `#` are skipped, and a line with any other
//! number of values makes the file invalid.
use vstd::prelude::*;
use crate::handlefile::file::{is_whitespace, is_whitespace_char};
use crate::text::{chars_of, push_char};

verus! {

/// The lines of a text: the pieces between `\n` characters.
pub open spec fn lines_of(s: Seq<char>) -> Seq<Seq<char>>
    decreases s.len(),
{
    if s.len() == 0 {
        seq![Seq::empty()]
    } else {
        let p = lines_of(s.drop_last());
        if s.last() == '\n' {
            p.push(Seq::empty())
        } else {
            p.update(p.len() - 1, p.last().push(s.last()))
        }
    }
}

/// The words of a line: its maximal runs of non-whitespace characters.
pub open spec fn words_of(s: Seq<char>) -> Seq<Seq<char>>
    decreases s.len(),
{
    if s.len() == 0 {
        Seq::empty()
    } else {
        let p = words_of(s.drop_last());
        let c = s.last();
        if is_whitespace(c) {
            p
        } else if s.len() == 1 || is_whitespace(s[s.len() - 2]) {
            p.push(seq![c])
        } else {
            p.update(p.len() - 1, p.last().push(c))
        }
    }
}

/// A line describes a cube: three or six words, the first not starting
/// with `#`.
pub open spec fn keep_record(w: Seq<Seq<char>>) -> bool {
    (w.len() == 3 || w.len() == 6) && w[0][0] != '#'
}

/// A line that is neither blank, nor a comment, nor a cube: its number of
/// values is not three or six.
pub open spec fn line_error(w: Seq<Seq<char>>) -> bool {
    w.len() > 0 && w[0][0] != '#' && w.len() != 3 && w.len() != 6
}

/// The number of values of the first invalid line, if any line is invalid.
pub open spec fn first_error(lines: Seq<Seq<char>>) -> Option<nat>
    decreases lines.len(),
{
    if lines.len() == 0 {
        None
    } else {
        match first_error(lines.drop_last()) {
            Some(n) => Some(n),
            None => if line_error(words_of(lines.last())) {
                Some(words_of(lines.last()).len())
            } else {
                None
            },
        }
    }
}

proof fn lemma_first_error_push(lines: Seq<Seq<char>>, l: Seq<char>)
    ensures
        first_error(lines.push(l)) == match first_error(lines) {
            Some(n) => Some(n),
            None => if line_error(words_of(l)) {
                Some(words_of(l).len())
            } else {
                None
            },
        },
{
    assert(lines.push(l).drop_last() =~= lines);
}

/// The words of the lines that describe cubes, in order.
pub open spec fn records_of_lines(lines: Seq<Seq<char>>) -> Seq<Seq<Seq<char>>> {
    lines.map_values(|l: Seq<char>| words_of(l)).filter(|w: Seq<Seq<char>>| keep_record(w))
}

/// The cube records of a `.model` text.
pub open spec fn model_records(s: Seq<char>) -> Seq<Seq<Seq<char>>> {
    records_of_lines(lines_of(s))
}

/// The characters of each string.
pub open spec fn views_of(v: Seq<String>) -> Seq<Seq<char>> {
    v.map_values(|s: String| s@)
}

/// The characters of each string of each record.
pub open spec fn records_view(r: Seq<Vec<String>>) -> Seq<Seq<Seq<char>>> {
    r.map_values(|v: Vec<String>| views_of(v@))
}

proof fn lemma_records_push(lines: Seq<Seq<char>>, l: Seq<char>)
    ensures
        records_of_lines(lines.push(l)) == records_of_lines(lines) + if keep_record(words_of(l)) {
            seq![words_of(l)]
        } else {
            Seq::empty()
        },
{
    let f = |l: Seq<char>| words_of(l);
    let m = lines.push(l).map_values(f);
    assert(m.drop_last() =~= lines.map_values(f));
    assert(m.last() == words_of(l));
    reveal(Seq::filter);
    if keep_record(words_of(l)) {
        assert(records_of_lines(lines.push(l)) =~= records_of_lines(lines) + seq![words_of(l)]);
    } else {
        assert(records_of_lines(lines.push(l)) =~= records_of_lines(lines) + Seq::empty());
    }
}

proof fn lemma_views_push(v: Seq<String>, s: String)
    ensures
        views_of(v.push(s)) == views_of(v).push(s@),
{
    assert(views_of(v.push(s)) =~= views_of(v).push(s@));
}

proof fn lemma_records_view_push(r: Seq<Vec<String>>, v: Vec<String>)
    ensures
        records_view(r.push(v)) == records_view(r).push(views_of(v@)),
{
    assert(records_view(r.push(v)) =~= records_view(r).push(views_of(v@)));
}

proof fn lemma_lines_nonempty(s: Seq<char>)
    ensures
        lines_of(s).len() >= 1,
    decreases s.len(),
{
    if s.len() > 0 {
        lemma_lines_nonempty(s.drop_last());
    }
}

proof fn lemma_words_nonempty(s: Seq<char>)
    ensures
        forall|i: int| 0 <= i < words_of(s).len() ==> (#[trigger] words_of(s)[i]).len() > 0,
        s.len() > 0 && !is_whitespace(s.last()) ==> words_of(s).len() > 0,
    decreases s.len(),
{
    if s.len() > 0 {
        let t = s.drop_last();
        lemma_words_nonempty(t);
        if s.len() >= 2 {
            assert(t.last() == s[s.len() - 2]);
        }
        let p = words_of(t);
        let w = words_of(s);
        assert forall|i: int| 0 <= i < w.len() implies (#[trigger] w[i]).len() > 0 by {
            if i < p.len() && !(i == p.len() - 1 && !is_whitespace(s.last()) && s.len() >= 2 && !is_whitespace(s[s.len() - 2])) {
                assert(w[i] == p[i]);
            }
        }
    }
}

/// The current line's words: the finished ones, then the one being read.
spec fn line_words(words: Seq<String>, word: String) -> Seq<Seq<char>> {
    if word@.len() > 0 {
        views_of(words).push(word@)
    } else {
        views_of(words)
    }
}

fn keep_line(words: &Vec<String>) -> (r: bool)
    requires
        forall|i: int| 0 <= i < words@.len() ==> (#[trigger] words@[i])@.len() > 0,
    ensures
        r == keep_record(views_of(words@)),
{
    if words.len() == 3 || words.len() == 6 {
        let first = chars_of(words[0].as_str());
        first[0] != '#'
    } else {
        false
    }
}

fn line_has_error(words: &Vec<String>) -> (r: bool)
    requires
        forall|i: int| 0 <= i < words@.len() ==> (#[trigger] words@[i])@.len() > 0,
    ensures
        r == line_error(views_of(words@)),
{
    if words.len() == 0 || words.len() == 3 || words.len() == 6 {
        false
    } else {
        let first = chars_of(words[0].as_str());
        first[0] != '#'
    }
}

/// Splits a `.model` text into the word lists of the lines that describe
/// cubes (three or six words, not a `#` comment), in order. A line that is
/// not blank, not a comment, and has another number of values makes the text
/// invalid: the error is that line's number of values, for the first such
/// line. Turning the words into numbers is left to the caller.
pub fn parse_model_records(content: &str) -> (r: Result<Vec<Vec<String>>, usize>)
    ensures
        match r {
            Ok(v) => first_error(lines_of(content@)) is None && records_view(v@) == model_records(content@),
            Err(n) => first_error(lines_of(content@)) == Some(n as nat),
        },
{
    let mut error: Option<usize> = None;
    let mut records: Vec<Vec<String>> = Vec::new();
    let mut words: Vec<String> = Vec::new();
    let mut word = String::new();
    let mut in_word = false;
    let ghost mut done: Seq<Seq<char>> = Seq::empty();
    let ghost mut line: Seq<char> = Seq::empty();
    let ghost mut processed: Seq<char> = Seq::empty();
    proof {
        assert(records_view(records@) =~= records_of_lines(done));
        assert(first_error(done) == None::<nat>);
        assert(lines_of(Seq::<char>::empty()) =~= done.push(line));
        assert(views_of(words@) =~= Seq::<Seq<char>>::empty());
    }
    for c in it: content.chars()
        invariant
            it.seq() == content@,
            processed == it.seq().take(it.index()),
            lines_of(processed) == done.push(line),
            records_view(records@) == records_of_lines(done),
            match error {
                Some(n) => first_error(done) == Some(n as nat),
                None => first_error(done) is None,
            },
            line_words(words@, word) == words_of(line),
            (word@.len() > 0) == (line.len() > 0 && !is_whitespace(line.last())),
            in_word == (word@.len() > 0),
            forall|i: int| 0 <= i < words@.len() ==> (#[trigger] words@[i])@.len() > 0,
    {
        let ghost prefix = processed;
        proof {
            assert(it.seq().take(it.index() + 1) =~= prefix.push(c));
            assert(prefix.push(c).drop_last() =~= prefix);
            lemma_lines_nonempty(prefix);
            lemma_words_nonempty(line);
        }
        if c == '\n' {
            if in_word {
                let mut w = String::new();
                std::mem::swap(&mut w, &mut word);
                in_word = false;
                proof {
                    lemma_views_push(words@, w);
                }
                words.push(w);
            }
            proof {
                assert(views_of(words@) == words_of(line));
            }
            let mut finished: Vec<String> = Vec::new();
            std::mem::swap(&mut finished, &mut words);
            proof {
                lemma_records_push(done, line);
                lemma_first_error_push(done, line);
            }
            if error.is_none() && line_has_error(&finished) {
                error = Some(finished.len());
            }
            if keep_line(&finished) {
                proof {
                    lemma_records_view_push(records@, finished);
                }
                records.push(finished);
            } else {
                proof {
                    assert(records_of_lines(done.push(line)) =~= records_of_lines(done));
                }
            }
            proof {
                assert(lines_of(prefix.push(c)) =~= done.push(line).push(Seq::empty()));
                done = done.push(line);
                line = Seq::empty();
                assert(views_of(words@) =~= Seq::<Seq<char>>::empty());
                assert(words_of(line) =~= Seq::<Seq<char>>::empty());
                processed = prefix.push(c);
            }
        } else {
            let ghost old_line = line;
            proof {
                assert(lines_of(prefix.push(c)) =~= done.push(line.push(c)));
                line = line.push(c);
                assert(line.drop_last() =~= old_line);
                if line.len() >= 2 {
                    assert(line[line.len() - 2] == old_line.last());
                }
                processed = prefix.push(c);
            }
            let ws = is_whitespace_char(c);
            if ws {
                if in_word {
                    let mut w = String::new();
                    std::mem::swap(&mut w, &mut word);
                    in_word = false;
                    proof {
                        lemma_views_push(words@, w);
                    }
                    words.push(w);
                }
            } else {
                let ghost before = word@;
                let ghost before_words = line_words(words@, word);
                assert(before_words == words_of(old_line));
                push_char(&mut word, c);
                in_word = true;
                proof {
                    if before.len() > 0 {
                        assert(line.drop_last() =~= old_line);
                        assert(words_of(line) =~= line_words(words@, word));
                    } else {
                        assert(line.drop_last() =~= old_line);
                        assert(word@ =~= seq![c]);
                        assert(words_of(line) =~= line_words(words@, word));
                    }
                }
            }
        }
    }
    proof {
        assert(processed =~= content@);
        lemma_words_nonempty(line);
    }
    if in_word {
        let mut w = String::new();
        std::mem::swap(&mut w, &mut word);
        in_word = false;
        proof {
            lemma_views_push(words@, w);
        }
        words.push(w);
    }
    proof {
        assert(views_of(words@) == words_of(line));
        lemma_records_push(done, line);
        lemma_first_error_push(done, line);
    }
    if error.is_none() && line_has_error(&words) {
        error = Some(words.len());
    }
    if keep_line(&words) {
        proof {
            lemma_records_view_push(records@, words);
        }
        records.push(words);
    } else {
        proof {
            assert(records_of_lines(done.push(line)) =~= records_of_lines(done));
        }
    }
    match error {
        Some(n) => Err(n),
        None => Ok(records),
    }
}

proof fn lemma_lines_after_newline(x: Seq<char>, b: Seq<char>)
    requires
        x.len() > 0,
        x.last() == '\n',
    ensures
        lines_of(x + b) == lines_of(x).drop_last() + lines_of(b),
    decreases b.len(),
{
    if b.len() == 0 {
        assert(x + b =~= x);
        assert(x.drop_last().push('\n') =~= x);
        assert(lines_of(x) == lines_of(x.drop_last()).push(Seq::empty()));
        assert(lines_of(x).drop_last() + lines_of(b) =~= lines_of(x));
    } else {
        let b1 = b.drop_last();
        let c = b.last();
        lemma_lines_after_newline(x, b1);
        lemma_lines_nonempty(b1);
        assert((x + b).drop_last() =~= x + b1);
        assert((x + b).last() == c);
        let d = lines_of(x).drop_last();
        let p = lines_of(b1);
        if c == '\n' {
            assert((d + p).push(Seq::empty()) =~= d + p.push(Seq::empty()));
        } else {
            assert((d + p).update((d + p).len() - 1, (d + p).last().push(c)) =~= d + p.update(
                p.len() - 1,
                p.last().push(c),
            ));
        }
    }
}

proof fn lemma_lines_single(l: Seq<char>)
    requires
        forall|i: int| 0 <= i < l.len() ==> l[i] != '\n',
    ensures
        lines_of(l) == seq![l],
    decreases l.len(),
{
    if l.len() > 0 {
        let t = l.drop_last();
        assert forall|i: int| 0 <= i < t.len() implies t[i] != '\n' by {
            assert(t[i] == l[i]);
        }
        lemma_lines_single(t);
        assert(l[l.len() - 1] != '\n');
        assert(t.push(l.last()) =~= l);
        assert(seq![t].update(0, t.push(l.last())) =~= seq![l]);
    } else {
        assert(l =~= Seq::<char>::empty());
    }
}

proof fn lemma_records_add(p: Seq<Seq<char>>, q: Seq<Seq<char>>)
    ensures
        records_of_lines(p + q) == records_of_lines(p) + records_of_lines(q),
{
    let f = |l: Seq<char>| words_of(l);
    let g = |w: Seq<Seq<char>>| keep_record(w);
    assert((p + q).map_values(f) =~= p.map_values(f) + q.map_values(f));
    Seq::filter_distributes_over_add(p.map_values(f), q.map_values(f), g);
}

proof fn lemma_first_error_add(p: Seq<Seq<char>>, q: Seq<Seq<char>>)
    ensures
        first_error(p + q) == match first_error(p) {
            Some(n) => Some(n),
            None => first_error(q),
        },
    decreases q.len(),
{
    if q.len() == 0 {
        assert(p + q =~= p);
    } else {
        lemma_first_error_add(p, q.drop_last());
        assert((p + q).drop_last() =~= p + q.drop_last());
        assert((p + q).last() == q.last());
    }
}

/// Texts put one after the other, with a line break between them, give the
/// records of the first followed by those of the second, and the first
/// invalid line of the whole is the first text's, else the second's.
pub proof fn law_model_texts_concatenate(a: Seq<char>, b: Seq<char>)
    ensures
        model_records(a.push('\n') + b) == model_records(a) + model_records(b),
        first_error(lines_of(a.push('\n') + b)) == match first_error(lines_of(a)) {
            Some(n) => Some(n),
            None => first_error(lines_of(b)),
        },
{
    let x = a.push('\n');
    lemma_lines_after_newline(x, b);
    assert(x.drop_last() =~= a);
    assert(lines_of(x) == lines_of(a).push(Seq::empty()));
    assert(lines_of(x).drop_last() =~= lines_of(a));
    lemma_records_add(lines_of(a), lines_of(b));
    lemma_first_error_add(lines_of(a), lines_of(b));
}

/// A final line break changes nothing: the last line of a text counts
/// whether or not it ends with one.
pub proof fn law_final_newline_changes_nothing(a: Seq<char>)
    ensures
        model_records(a.push('\n')) == model_records(a),
        first_error(lines_of(a.push('\n'))) == first_error(lines_of(a)),
{
    law_model_texts_concatenate(a, Seq::empty());
    assert(a.push('\n') + Seq::<char>::empty() =~= a.push('\n'));
    assert(lines_of(Seq::<char>::empty()) == seq![Seq::<char>::empty()]);
    lemma_records_push(Seq::empty(), Seq::empty());
    assert(records_of_lines(Seq::<Seq<char>>::empty()) =~= Seq::<Seq<Seq<char>>>::empty());
    assert(seq![Seq::<char>::empty()] =~= Seq::<Seq<char>>::empty().push(Seq::empty()));
    assert(words_of(Seq::<char>::empty()) =~= Seq::<Seq<char>>::empty());
    assert(model_records(a) + Seq::<Seq<Seq<char>>>::empty() =~= model_records(a));
    lemma_first_error_push(Seq::empty(), Seq::empty());
}

/// A single line (no line break) with three or six words, the first not
/// starting with `#`, is one record, its words; a blank or comment line is
/// no record and no error; any other line is no record and the error is its
/// number of words.
pub proof fn law_one_line(l: Seq<char>)
    requires
        forall|i: int| 0 <= i < l.len() ==> l[i] != '\n',
    ensures
        ({
            let w = words_of(l);
            &&& (w.len() == 3 || w.len() == 6) && w[0][0] != '#' ==> model_records(l) == seq![w]
                && first_error(lines_of(l)) is None
            &&& (w.len() == 0 || w[0][0] == '#') ==> model_records(l) == Seq::<Seq<Seq<char>>>::empty()
                && first_error(lines_of(l)) is None
            &&& (w.len() > 0 && w[0][0] != '#' && w.len() != 3 && w.len() != 6) ==> model_records(l)
                == Seq::<Seq<Seq<char>>>::empty() && first_error(lines_of(l)) == Some(w.len())
        }),
{
    lemma_lines_single(l);
    assert(seq![l] =~= Seq::<Seq<char>>::empty().push(l));
    lemma_records_push(Seq::empty(), l);
    lemma_first_error_push(Seq::empty(), l);
    assert(records_of_lines(Seq::<Seq<char>>::empty()) =~= Seq::<Seq<Seq<char>>>::empty());
    assert(Seq::<Seq<Seq<char>>>::empty() + seq![words_of(l)] =~= seq![words_of(l)]);
    assert(Seq::<Seq<Seq<char>>>::empty() + Seq::<Seq<Seq<char>>>::empty() =~= Seq::<Seq<Seq<char>>>::empty());
}

} // verus!
