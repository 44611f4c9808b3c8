//! A typing session: the fixed target, the edited input, the current spans
//! and the timestamps of the first keystroke and of completion.
use vstd::prelude::*;
use crate::corpus::CorpusRecord;
use crate::diff::{
    cells_view, classify, classify_positions, compute_spans, diff, hidden_mark, spans_view,
};
use crate::metrics::{percent_of, percentage, words_per_minute, wpm_of};
use crate::select::{count_eligible, min_nat, SelectError, TargetPhrase, WordSelector};
use crate::settings::GameSettings;
use crate::span::{GameSpan, SpanClass};
use crate::text::chars_of;

verus! {

/// A key event, as the session sees it.
#[derive(Clone, Copy, Debug, PartialEq, Eq, Structural)]
pub enum KeyInput {
    /// A printable character typed.
    Char(char),
    /// Delete the last typed character.
    Backspace,
    /// End the session.
    Quit,
    /// Any other key; it is logged and otherwise ignored.
    Other,
}

/// One session of typing.
#[derive(Debug)]
pub struct Game {
    /// Corpus positions of the phrase's words, in phrase order.
    pub records: Vec<usize>,
    /// Every accepted key event with its time in milliseconds.
    pub key_log: Vec<(KeyInput, u64)>,
    pub target: Vec<char>,
    pub input: Vec<char>,
    pub spans: Vec<GameSpan<String>>,
    /// Time of the first typed character, in milliseconds.
    pub start_ms: Option<u64>,
    /// Time at which the phrase was completed, in milliseconds.
    pub end_ms: Option<u64>,
}

/// Number of occurrences of `c` in `s`.
pub open spec fn count_char(s: Seq<char>, c: char) -> nat
    decreases s.len(),
{
    if s.len() == 0 {
        0
    } else {
        count_char(s.drop_last(), c) + if s.last() == c {
            1nat
        } else {
            0nat
        }
    }
}

/// Number of positions of class `k`.
pub open spec fn count_class(s: Seq<(SpanClass, char)>, k: SpanClass) -> nat
    decreases s.len(),
{
    if s.len() == 0 {
        0
    } else {
        count_class(s.drop_last(), k) + if s.last().0 == k {
            1nat
        } else {
            0nat
        }
    }
}

/// The input completes the target: it is as long as the target, or it has
/// ended the final word with a space.
pub open spec fn is_complete(t: Seq<char>, i: Seq<char>) -> bool {
    i.len() >= t.len() || count_char(i, ' ') > count_char(t, ' ')
}

/// The phrase word shown first: the word after the last typed space when the
/// input ends with a space, else the word before it.
pub open spec fn focus_index(i: Seq<char>) -> nat {
    let n = count_char(i, ' ');
    if i.len() > 0 && i.last() == ' ' {
        n
    } else if n > 0 {
        (n - 1) as nat
    } else {
        0
    }
}

/// The space-separated words of `s`; consecutive spaces give empty words.
pub open spec fn split_words(s: Seq<char>) -> Seq<Seq<char>>
    decreases s.len(),
{
    if s.len() == 0 {
        seq![seq![]]
    } else {
        let w = split_words(s.drop_last());
        if s.last() == ' ' {
            w.push(seq![])
        } else {
            w.update(w.len() - 1, w.last().push(s.last()))
        }
    }
}

/// Number of positions below `n` where `a` and `b` hold the same word.
pub open spec fn count_matches(a: Seq<Seq<char>>, b: Seq<Seq<char>>, n: nat) -> nat
    decreases n,
{
    if n == 0 {
        0
    } else {
        count_matches(a, b, (n - 1) as nat) + if a[n - 1] == b[n - 1] {
            1nat
        } else {
            0nat
        }
    }
}

/// The words of a split, as character sequences.
pub open spec fn words_view(v: Seq<Vec<char>>) -> Seq<Seq<char>> {
    v.map_values(|w: Vec<char>| w@)
}

/// Splits `s` at every space.
pub fn split_on_spaces(s: &Vec<char>) -> (r: Vec<Vec<char>>)
    ensures
        words_view(r@) == split_words(s@),
        r@.len() >= 1,
{
    let mut out: Vec<Vec<char>> = Vec::new();
    out.push(Vec::new());
    let mut k: usize = 0;
    assert(s@.take(0) =~= Seq::<char>::empty());
    assert(words_view(out@) =~= split_words(Seq::<char>::empty()));
    while k < s.len()
        invariant
            k <= s@.len(),
            words_view(out@) == split_words(s@.take(k as int)),
            out@.len() >= 1,
        decreases s@.len() - k,
    {
        let ghost before = out@;
        assert(s@.take(k + 1).drop_last() =~= s@.take(k as int));
        let c = s[k];
        if c == ' ' {
            out.push(Vec::new());
            assert(words_view(out@) =~= words_view(before).push(seq![]));
        } else {
            let mut last = out.pop().unwrap();
            last.push(c);
            out.push(last);
            assert(words_view(out@) =~= words_view(before).update(
                before.len() - 1,
                words_view(before).last().push(c),
            ));
        }
        k = k + 1;
    }
    assert(s@.take(s@.len() as int) =~= s@);
    out
}

/// Whether two character vectors hold the same characters.
pub fn same_chars(a: &Vec<char>, b: &Vec<char>) -> (r: bool)
    ensures
        r == (a@ == b@),
{
    if a.len() != b.len() {
        return false;
    }
    let mut k: usize = 0;
    while k < a.len()
        invariant
            a@.len() == b@.len(),
            k <= a@.len(),
            forall|j: int| 0 <= j < k ==> a@[j] == b@[j],
        decreases a@.len() - k,
    {
        if a[k] != b[k] {
            return false;
        }
        k = k + 1;
    }
    assert(a@ =~= b@);
    true
}

/// Counts the occurrences of `c` in `s`.
pub fn count_occurrences(s: &Vec<char>, c: char) -> (r: usize)
    ensures
        r == count_char(s@, c),
{
    let mut r: usize = 0;
    let mut k: usize = 0;
    while k < s.len()
        invariant
            k <= s@.len(),
            r == count_char(s@.take(k as int), c),
            r <= k,
        decreases s@.len() - k,
    {
        assert(s@.take(k + 1).drop_last() =~= s@.take(k as int));
        if s[k] == c {
            r = r + 1;
        }
        k = k + 1;
    }
    assert(s@.take(s@.len() as int) =~= s@);
    r
}

impl Game {
    /// The spans are those of the current input against the target, and a
    /// session can only end after it started.
    pub open spec fn wf(&self) -> bool {
        &&& spans_view(self.spans@) == diff(self.target@, self.input@)
        &&& self.end_ms is Some ==> self.start_ms is Some
    }

    /// A fresh session on a selected phrase.
    pub fn from_phrase(phrase: TargetPhrase) -> (g: Game)
        ensures
            g.wf(),
            g.records@ == phrase.records@,
            g.target@ == phrase.text@,
            g.input@.len() == 0,
            g.key_log@.len() == 0,
            g.start_ms is None,
            g.end_ms is None,
    {
        let target = chars_of(phrase.text.as_str());
        let input: Vec<char> = Vec::new();
        let spans = compute_spans(&target, &input);
        Game {
            records: phrase.records,
            key_log: Vec::new(),
            target,
            input,
            spans,
            start_ms: None,
            end_ms: None,
        }
    }

    /// Selects a phrase from `corpus` and starts a session on it; fails
    /// exactly when no record of the corpus has a word.
    pub fn new(corpus: &Vec<CorpusRecord>, settings: &GameSettings<u64>) -> (r: Result<
        Game,
        SelectError,
    >)
        ensures
            r is Err <==> count_eligible(corpus@) == 0,
            r matches Ok(g) ==> {
                &&& g.wf()
                &&& g.input@.len() == 0
                &&& g.start_ms is None
                &&& g.end_ms is None
                &&& g.records@.len() == min_nat(settings.len as nat, count_eligible(corpus@))
                &&& exists|p: TargetPhrase|
                    p.chosen_from(corpus@) && g.records@ == p.records@ && g.target@ == p.text@
            },
    {
        match WordSelector::select(corpus, settings) {
            Err(e) => Err(e),
            Ok(phrase) => {
                let ghost p = phrase;
                let g = Self::from_phrase(phrase);
                assert(p.chosen_from(corpus@) && g.records@ == p.records@ && g.target@ == p.text@);
                Ok(g)
            },
        }
    }

    /// Recomputes the spans from the target and the input. Calling it again
    /// on an unchanged session yields the same spans.
    pub fn calculate_spans(&mut self)
        ensures
            spans_view(final(self).spans@) == diff(old(self).target@, old(self).input@),
            old(self).wf() ==> spans_view(final(self).spans@) == spans_view(old(self).spans@),
            final(self).target == old(self).target,
            final(self).input == old(self).input,
            final(self).records == old(self).records,
            final(self).key_log == old(self).key_log,
            final(self).start_ms == old(self).start_ms,
            final(self).end_ms == old(self).end_ms,
    {
        self.spans = compute_spans(&self.target, &self.input);
    }

    /// Applies one key event at time `now_ms`. Quit leaves the session as it
    /// is and returns false; any other key is logged, a character is
    /// appended, backspace removes the last character, the first typed
    /// character starts the clock, completing the phrase stops it, and the
    /// spans are recomputed.
    pub fn handle_key(&mut self, key: KeyInput, now_ms: u64) -> (keep_going: bool)
        requires
            old(self).wf(),
        ensures
            final(self).wf(),
            keep_going == (key != KeyInput::Quit),
            key == KeyInput::Quit ==> *final(self) == *old(self),
            key != KeyInput::Quit ==> {
                &&& final(self).key_log@ == old(self).key_log@.push((key, now_ms))
                &&& final(self).target == old(self).target
                &&& final(self).records == old(self).records
                &&& final(self).input@ == match key {
                    KeyInput::Char(c) => old(self).input@.push(c),
                    KeyInput::Backspace => if old(self).input@.len() > 0 {
                        old(self).input@.drop_last()
                    } else {
                        old(self).input@
                    },
                    _ => old(self).input@,
                }
                &&& final(self).start_ms == if old(self).start_ms is None && key is Char {
                    Some(now_ms)
                } else {
                    old(self).start_ms
                }
                &&& final(self).end_ms == if old(self).end_ms is None && final(self).start_ms is Some
                    && is_complete(final(self).target@, final(self).input@) {
                    Some(now_ms)
                } else {
                    old(self).end_ms
                }
            },
    {
        if key == KeyInput::Quit {
            return false;
        }
        self.key_log.push((key, now_ms));
        match key {
            KeyInput::Char(c) => {
                self.input.push(c);
                if self.start_ms.is_none() {
                    self.start_ms = Some(now_ms);
                }
            },
            KeyInput::Backspace => {
                let ghost before = self.input@;
                let _ = self.input.pop();
                assert(before.len() == 0 ==> self.input@ =~= before);
            },
            _ => {},
        }
        if self.end_ms.is_none() && self.start_ms.is_some() {
            let complete = self.input.len() >= self.target.len() || count_occurrences(
                &self.input,
                ' ',
            ) > count_occurrences(&self.target, ' ');
            if complete {
                self.end_ms = Some(now_ms);
            }
        }
        self.calculate_spans();
        true
    }

    /// Number of words in the phrase.
    pub fn word_count(&self) -> (r: usize)
        ensures
            r == self.records@.len(),
    {
        self.records.len()
    }

    /// Words per minute of a completed session: the phrase's words over the
    /// time from the first keystroke to completion, rounded half up.
    /// Unavailable before completion, for a zero duration, or when the clock
    /// went backwards.
    pub fn wpm(&self) -> (r: Option<u64>)
        ensures
            r == match (self.start_ms, self.end_ms) {
                (Some(s), Some(e)) => if s < e && wpm_of((e - s) as nat, self.records@.len())
                    <= u64::MAX {
                    Some(wpm_of((e - s) as nat, self.records@.len()) as u64)
                } else {
                    None::<u64>
                },
                _ => None::<u64>,
            },
    {
        match (self.start_ms, self.end_ms) {
            (Some(s), Some(e)) => {
                if s < e {
                    words_per_minute(e - s, self.records.len() as u64)
                } else {
                    None
                }
            },
            _ => None,
        }
    }

    /// Character accuracy: the share of target characters typed correctly,
    /// as a percentage rounded half up; unavailable for an empty target.
    pub fn char_accuracy(&self) -> (r: Option<u64>)
        ensures
            self.target@.len() == 0 ==> r is None,
            self.target@.len() > 0 ==> r == Some(
                percent_of(
                    count_class(classify(self.target@, self.input@), SpanClass::Correct),
                    self.target@.len(),
                ) as u64,
            ),
    {
        let cells = classify_positions(&self.target, &self.input);
        let ghost cs = cells_view(cells@);
        let mut correct: usize = 0;
        let mut k: usize = 0;
        while k < cells.len()
            invariant
                cs == cells_view(cells@),
                k <= cells@.len(),
                correct == count_class(cs.take(k as int), SpanClass::Correct),
                correct <= k,
            decreases cells@.len() - k,
        {
            assert(cs.take(k + 1).drop_last() =~= cs.take(k as int));
            if cells[k].get_class() == SpanClass::Correct {
                correct = correct + 1;
            }
            k = k + 1;
        }
        assert(cs.take(cs.len() as int) =~= cs);
        proof {
            lemma_correct_at_most_target(self.target@, self.input@);
        }
        percentage(correct as u64, self.target.len() as u64)
    }

    /// Word accuracy: the share of target words whose typed counterpart, at
    /// the same position among the space-separated words of the input, is
    /// exactly that word, as a percentage rounded half up.
    pub fn word_accuracy(&self) -> (r: Option<u64>)
        ensures
            r == Some(
                percent_of(
                    count_matches(
                        split_words(self.input@),
                        split_words(self.target@),
                        if split_words(self.input@).len() < split_words(self.target@).len() {
                            split_words(self.input@).len()
                        } else {
                            split_words(self.target@).len()
                        },
                    ),
                    split_words(self.target@).len(),
                ) as u64,
            ),
    {
        let typed = split_on_spaces(&self.input);
        let wanted = split_on_spaces(&self.target);
        let ghost ti = words_view(typed@);
        let ghost tw = words_view(wanted@);
        let n = if typed.len() < wanted.len() {
            typed.len()
        } else {
            wanted.len()
        };
        let mut matches: usize = 0;
        let mut k: usize = 0;
        while k < n
            invariant
                n <= typed@.len(),
                n <= wanted@.len(),
                ti == words_view(typed@),
                tw == words_view(wanted@),
                k <= n,
                matches == count_matches(ti, tw, k as nat),
                matches <= k,
            decreases n - k,
        {
            if same_chars(&typed[k], &wanted[k]) {
                matches = matches + 1;
            }
            k = k + 1;
        }
        percentage(matches as u64, wanted.len() as u64)
    }

    /// Indices of the two phrase words whose details are shown: the one
    /// under the cursor (or just before it) and the next, where they exist.
    pub fn focus_words(&self) -> (r: (Option<usize>, Option<usize>))
        ensures
            r.0 == if focus_index(self.input@) < self.records@.len() {
                Some(focus_index(self.input@) as usize)
            } else {
                None::<usize>
            },
            r.1 == if focus_index(self.input@) + 1 < self.records@.len() {
                Some((focus_index(self.input@) + 1) as usize)
            } else {
                None::<usize>
            },
    {
        let n = count_occurrences(&self.input, ' ');
        let len = self.input.len();
        let k = if len > 0 && self.input[len - 1] == ' ' {
            n
        } else if n > 0 {
            n - 1
        } else {
            0
        };
        let count = self.records.len();
        let first = if k < count {
            Some(k)
        } else {
            None
        };
        let second = if k < count && k + 1 < count {
            Some(k + 1)
        } else {
            None
        };
        (first, second)
    }
}

/// Correct positions never outnumber the target's characters.
proof fn lemma_correct_at_most_target(t: Seq<char>, i: Seq<char>)
    ensures
        count_class(classify(t, i), SpanClass::Correct) <= t.len(),
    decreases t.len() + i.len(),
{
    if t.len() > 0 && i.len() > 0 && t[0] == i[0] {
        lemma_correct_at_most_target(t.drop_first(), i.drop_first());
        lemma_count_class_prepend((SpanClass::Correct, t[0]), classify(t.drop_first(), i.drop_first()));
    } else if t.len() > 0 && i.len() > 0 && i[0] == ' ' {
        lemma_correct_at_most_target(t.drop_first(), i);
        lemma_count_class_prepend((SpanClass::Skipped, t[0]), classify(t.drop_first(), i));
    } else if i.len() > 0 && (t.len() == 0 || t[0] == ' ') {
        lemma_correct_at_most_target(t, i.drop_first());
        lemma_count_class_prepend((SpanClass::Overflow, i[0]), classify(t, i.drop_first()));
    } else if t.len() > 0 && i.len() > 0 {
        lemma_correct_at_most_target(t.drop_first(), i.drop_first());
        lemma_count_class_prepend((SpanClass::Wrong, t[0]), classify(t.drop_first(), i.drop_first()));
    } else if t.len() > 0 {
        lemma_correct_at_most_target(t.drop_first(), i);
        lemma_count_class_prepend(
            (SpanClass::Hidden, hidden_mark(t[0])),
            classify(t.drop_first(), i),
        );
    }
}

proof fn lemma_count_class_prepend(x: (SpanClass, char), s: Seq<(SpanClass, char)>)
    ensures
        count_class(seq![x] + s, SpanClass::Correct) == count_class(s, SpanClass::Correct) + if x.0
            == SpanClass::Correct {
            1nat
        } else {
            0nat
        },
    decreases s.len(),
{
    if s.len() == 0 {
        assert(seq![x] + s =~= seq![x]);
        assert(seq![x].drop_last() =~= Seq::<(SpanClass, char)>::empty());
        assert(count_class(Seq::<(SpanClass, char)>::empty(), SpanClass::Correct) == 0);
    } else {
        assert((seq![x] + s).last() == s.last());
        assert((seq![x] + s).drop_last() =~= seq![x] + s.drop_last());
        lemma_count_class_prepend(x, s.drop_last());
    }
}

/// Recomputing spans is idempotent: two sessions that agree on target and
/// input and whose spans are current hold the same spans.
pub proof fn lemma_spans_idempotent(a: Game, b: Game)
    requires
        a.wf(),
        b.wf(),
        a.target@ == b.target@,
        a.input@ == b.input@,
    ensures
        spans_view(a.spans@) == spans_view(b.spans@),
{
}

} // verus!
