//! Word selection: ranks the corpus by weight and joins the lightest words
//! into the target phrase.
use vstd::prelude::*;
use crate::corpus::CorpusRecord;
use crate::settings::{GameSettings, JITTER_MIN, JITTER_END, draw_in_range};
use crate::text::push_char;

verus! {

/// Why no target phrase could be built.
#[derive(Clone, Copy, Debug, PartialEq, Eq, Structural)]
pub enum SelectError {
    /// No corpus record has a word to put into the phrase.
    NoWords,
}

/// The phrase the user must type, with the corpus positions of its words.
#[derive(Debug)]
pub struct TargetPhrase {
    /// Corpus position of each word, in phrase order.
    pub records: Vec<usize>,
    /// The words, in phrase order.
    pub words: Vec<String>,
    /// The words joined by single spaces.
    pub text: String,
}

/// Namespace of the selection algorithm.
pub struct WordSelector;

/// A record that has a word can be selected.
pub open spec fn eligible(r: CorpusRecord) -> bool {
    r.word is Some
}

/// The word of a selectable record.
pub open spec fn word_of(r: CorpusRecord) -> Seq<char> {
    r.word->0@
}

/// Number of selectable records.
pub open spec fn count_eligible(rs: Seq<CorpusRecord>) -> nat
    decreases rs.len(),
{
    if rs.len() == 0 {
        0
    } else {
        count_eligible(rs.drop_last()) + if eligible(rs.last()) {
            1nat
        } else {
            0nat
        }
    }
}

/// Record `a` sorts before record `b`: a lower key, or an equal key and an
/// earlier corpus position.
pub open spec fn ranks_before(keys: Seq<u64>, a: int, b: int) -> bool {
    keys[a] < keys[b] || (keys[a] == keys[b] && a < b)
}

/// The sort key of each record under the given jitter factors.
pub open spec fn keys_of(s: GameSettings<u64>, rs: Seq<CorpusRecord>, js: Seq<u64>) -> Seq<u64> {
    Seq::new(rs.len(), |j: int| s.spec_weight(&rs[j], js[j]))
}

/// Every jitter factor lies in `JITTER_MIN..JITTER_END`.
pub open spec fn jitters_in_range(js: Seq<u64>) -> bool {
    forall|k: int| 0 <= k < js.len() ==> JITTER_MIN <= #[trigger] js[k] < JITTER_END
}

/// Words joined by single spaces.
pub open spec fn join_words(ws: Seq<Seq<char>>) -> Seq<char>
    decreases ws.len(),
{
    if ws.len() == 0 {
        seq![]
    } else if ws.len() == 1 {
        ws[0]
    } else {
        join_words(ws.drop_last()) + seq![' '] + ws.last()
    }
}

/// The smaller of two naturals.
pub open spec fn min_nat(a: nat, b: nat) -> nat {
    if a <= b {
        a
    } else {
        b
    }
}

impl TargetPhrase {
    /// The words as character sequences.
    pub open spec fn word_views(&self) -> Seq<Seq<char>> {
        self.words@.map_values(|w: String| w@)
    }

    /// The phrase is made of selectable records of `corpus`: each word is the
    /// word of its record, and the text joins the words by single spaces.
    pub open spec fn chosen_from(&self, corpus: Seq<CorpusRecord>) -> bool {
        &&& self.records@.len() == self.words@.len()
        &&& forall|k: int|
            0 <= k < self.records@.len() ==> {
                &&& #[trigger] self.records@[k] < corpus.len()
                &&& eligible(corpus[self.records@[k] as int])
                &&& self.words@[k]@ == word_of(corpus[self.records@[k] as int])
            }
        &&& self.text@ == join_words(self.word_views())
    }

    /// The records are the first `len` selectable records of `corpus` in
    /// ascending order of `keys`, ties kept in corpus order.
    pub open spec fn ranked(&self, corpus: Seq<CorpusRecord>, keys: Seq<u64>, len: nat) -> bool {
        &&& self.records@.len() == min_nat(len, count_eligible(corpus))
        &&& forall|k1: int, k2: int|
            0 <= k1 < k2 < self.records@.len() ==> ranks_before(
                keys,
                #[trigger] self.records@[k1] as int,
                #[trigger] self.records@[k2] as int,
            )
        &&& forall|j: int, k: int|
            0 <= j < corpus.len() && eligible(corpus[j]) && !self.records@.contains(j as usize) && 0
                <= k < self.records@.len() ==> #[trigger] ranks_before(
                keys,
                self.records@[k] as int,
                j,
            )
    }
}

/// `sorted` lists, as (key, position) pairs, exactly the selectable records
/// among the first `i` of `corpus`, in ranking order.
pub open spec fn ranking_of(
    sorted: Seq<(u64, usize)>,
    corpus: Seq<CorpusRecord>,
    keys: Seq<u64>,
    i: int,
) -> bool {
    &&& sorted.len() == count_eligible(corpus.take(i))
    &&& forall|p: int|
        0 <= p < sorted.len() ==> {
            &&& #[trigger] sorted[p].1 < i
            &&& eligible(corpus[sorted[p].1 as int])
            &&& sorted[p].0 == keys[sorted[p].1 as int]
        }
    &&& forall|p: int, q: int|
        0 <= p < q < sorted.len() ==> ranks_before(
            keys,
            #[trigger] sorted[p].1 as int,
            #[trigger] sorted[q].1 as int,
        )
    &&& forall|j: int|
        0 <= j < i && eligible(#[trigger] corpus[j]) ==> exists|p: int|
            0 <= p < sorted.len() && #[trigger] sorted[p].1 == j
}

/// Ranks the selectable records of `corpus` by key, keeping corpus order
/// among equal keys.
fn rank_records(corpus: &Vec<CorpusRecord>, settings: &GameSettings<u64>, jitters: &Vec<u64>) -> (r:
    Vec<(u64, usize)>)
    requires
        jitters@.len() == corpus@.len(),
    ensures
        ranking_of(r@, corpus@, keys_of(*settings, corpus@, jitters@), corpus@.len() as int),
{
    let ghost keys = keys_of(*settings, corpus@, jitters@);
    let n = corpus.len();
    let mut sorted: Vec<(u64, usize)> = Vec::new();
    let mut i: usize = 0;
    assert(corpus@.take(0) =~= Seq::<CorpusRecord>::empty());
    while i < n
        invariant
            n == corpus@.len(),
            jitters@.len() == n,
            keys == keys_of(*settings, corpus@, jitters@),
            i <= n,
            ranking_of(sorted@, corpus@, keys, i as int),
        decreases n - i,
    {
        assert(corpus@.take(i + 1).drop_last() =~= corpus@.take(i as int));
        if corpus[i].word.is_some() {
            let key = settings.weight_with_jitter(&corpus[i], jitters[i]);
            let len = sorted.len();
            let mut pos: usize = 0;
            while pos < len && sorted[pos].0 <= key
                invariant
                    len == sorted@.len(),
                    pos <= len,
                    forall|q: int| 0 <= q < pos ==> (#[trigger] sorted@[q]).0 <= key,
                decreases len - pos,
            {
                pos = pos + 1;
            }
            let ghost old_sorted = sorted@;
            assert forall|q: int| pos <= q < len implies (#[trigger] old_sorted[q]).0 > key by {
                if q > pos {
                    assert(ranks_before(keys, old_sorted[pos as int].1 as int, old_sorted[q].1 as int));
                }
            }
            sorted.insert(pos, (key, i));
            let ghost s = sorted@;
            assert(s == old_sorted.insert(pos as int, (key, i)));
            assert forall|p: int| 0 <= p < s.len() implies {
                &&& #[trigger] s[p].1 < i + 1
                &&& eligible(corpus@[s[p].1 as int])
                &&& s[p].0 == keys[s[p].1 as int]
            } by {
                if p > pos {
                    assert(s[p] == old_sorted[p - 1]);
                } else if p < pos {
                    assert(s[p] == old_sorted[p]);
                }
            }
            assert forall|p: int, q: int| 0 <= p < q < s.len() implies ranks_before(
                keys,
                #[trigger] s[p].1 as int,
                #[trigger] s[q].1 as int,
            ) by {
                if p < pos && q < pos {
                    assert(ranks_before(keys, old_sorted[p].1 as int, old_sorted[q].1 as int));
                } else if p < pos && q == pos {
                    assert(old_sorted[p].0 <= key);
                } else if p < pos {
                    assert(ranks_before(keys, old_sorted[p].1 as int, old_sorted[q - 1].1 as int));
                } else if p == pos {
                    assert(old_sorted[q - 1].0 > key);
                } else {
                    assert(ranks_before(keys, old_sorted[p - 1].1 as int, old_sorted[q - 1].1 as int));
                }
            }
            assert forall|j: int| 0 <= j < i + 1 && eligible(#[trigger] corpus@[j]) implies exists|p: int|
                0 <= p < s.len() && #[trigger] s[p].1 == j by {
                if j == i {
                    assert(s[pos as int].1 == j);
                } else {
                    let p0 = choose|p: int| 0 <= p < old_sorted.len() && #[trigger] old_sorted[p].1 == j;
                    if p0 < pos {
                        assert(s[p0].1 == j);
                    } else {
                        assert(s[p0 + 1].1 == j);
                    }
                }
            }
        }
        i = i + 1;
    }
    assert(corpus@.take(n as int) =~= corpus@);
    sorted
}

impl WordSelector {
    /// Builds the target phrase from the given jitter factors, one per corpus
    /// record: the selectable records are ranked by ascending weight, ties in
    /// corpus order, and the words of the first `settings.len` are joined by
    /// single spaces. Fails exactly when no record is selectable.
    pub fn select_with_jitters(
        corpus: &Vec<CorpusRecord>,
        settings: &GameSettings<u64>,
        jitters: &Vec<u64>,
    ) -> (r: Result<TargetPhrase, SelectError>)
        requires
            jitters@.len() == corpus@.len(),
        ensures
            r is Err <==> count_eligible(corpus@) == 0,
            r is Err ==> r == Err::<TargetPhrase, SelectError>(SelectError::NoWords),
            r matches Ok(p) ==> p.chosen_from(corpus@) && p.ranked(
                corpus@,
                keys_of(*settings, corpus@, jitters@),
                settings.len as nat,
            ),
    {
        let ghost keys = keys_of(*settings, corpus@, jitters@);
        let sorted = rank_records(corpus, settings, jitters);
        assert(corpus@.take(corpus@.len() as int) =~= corpus@);
        if sorted.len() == 0 {
            return Err(SelectError::NoWords);
        }
        let m = if settings.len < sorted.len() {
            settings.len
        } else {
            sorted.len()
        };
        let mut records: Vec<usize> = Vec::new();
        let mut words: Vec<String> = Vec::new();
        let mut text = String::new();
        let mut k: usize = 0;
        while k < m
            invariant
                m <= sorted@.len(),
                ranking_of(sorted@, corpus@, keys, corpus@.len() as int),
                k <= m,
                records@.len() == k,
                words@.len() == k,
                forall|q: int| 0 <= q < k ==> #[trigger] records@[q] == sorted@[q].1,
                forall|q: int|
                    0 <= q < k ==> #[trigger] words@[q]@ == word_of(corpus@[records@[q] as int]),
                text@ == join_words(words@.map_values(|w: String| w@)),
            decreases m - k,
        {
            let ghost before = words@.map_values(|w: String| w@);
            let idx = sorted[k].1;
            assert(sorted@[k as int].1 < corpus@.len());
            let w = corpus[idx].word.as_ref().unwrap().clone();
            if k > 0 {
                push_char(&mut text, ' ');
            }
            text.append(w.as_str());
            records.push(idx);
            words.push(w);
            let ghost after = words@.map_values(|w: String| w@);
            assert(after.drop_last() =~= before);
            if k == 0 {
                assert(before =~= Seq::<Seq<char>>::empty());
                assert(text@ =~= after[0]);
            } else {
                assert(text@ =~= join_words(before) + seq![' '] + after.last());
            }
            k = k + 1;
        }
        let phrase = TargetPhrase { records, words, text };
        assert forall|j: int, q: int|
            0 <= j < corpus@.len() && eligible(corpus@[j]) && !phrase.records@.contains(j as usize)
                && 0 <= q < phrase.records@.len() implies #[trigger] ranks_before(
            keys,
            phrase.records@[q] as int,
            j,
        ) by {
            let p = choose|p: int| 0 <= p < sorted@.len() && #[trigger] sorted@[p].1 == j;
            if p < m {
                assert(phrase.records@[p] == j as usize);
            }
            assert(ranks_before(keys, sorted@[q].1 as int, sorted@[p].1 as int));
        }
        assert forall|k1: int, k2: int| 0 <= k1 < k2 < phrase.records@.len() implies ranks_before(
            keys,
            #[trigger] phrase.records@[k1] as int,
            #[trigger] phrase.records@[k2] as int,
        ) by {
            assert(ranks_before(keys, sorted@[k1].1 as int, sorted@[k2].1 as int));
        }
        assert(corpus@.take(corpus@.len() as int) =~= corpus@);
        Ok(phrase)
    }

    /// Builds the target phrase with jitter factors drawn at random from
    /// `JITTER_MIN..JITTER_END`. The phrase has `min(settings.len, n)` words,
    /// where `n` is the number of selectable records; it fails exactly when
    /// there is none.
    pub fn select(corpus: &Vec<CorpusRecord>, settings: &GameSettings<u64>) -> (r: Result<
        TargetPhrase,
        SelectError,
    >)
        ensures
            r is Err <==> count_eligible(corpus@) == 0,
            r is Err ==> r == Err::<TargetPhrase, SelectError>(SelectError::NoWords),
            r matches Ok(p) ==> {
                &&& p.chosen_from(corpus@)
                &&& p.records@.len() == min_nat(settings.len as nat, count_eligible(corpus@))
                &&& exists|js: Seq<u64>|
                    js.len() == corpus@.len() && jitters_in_range(js) && p.ranked(
                        corpus@,
                        keys_of(*settings, corpus@, js),
                        settings.len as nat,
                    )
            },
    {
        let n = corpus.len();
        let mut jitters: Vec<u64> = Vec::new();
        let mut i: usize = 0;
        while i < n
            invariant
                n == corpus@.len(),
                i <= n,
                jitters@.len() == i,
                jitters_in_range(jitters@),
            decreases n - i,
        {
            jitters.push(draw_in_range(JITTER_MIN, JITTER_END));
            i = i + 1;
        }
        let r = Self::select_with_jitters(corpus, settings, &jitters);
        if let Ok(p) = &r {
            assert(p.ranked(corpus@, keys_of(*settings, corpus@, jitters@), settings.len as nat));
        }
        r
    }
}

} // verus!
