//! Selection settings and the weighting function.
use vstd::prelude::*;
use crate::corpus::{CorpusRecord, UsageCategory};
use crate::text::same_text;

verus! {

/// The lowest jitter factor, in permille.
pub const JITTER_MIN: u64 = 900;

/// One past the highest jitter factor, in permille.
pub const JITTER_END: u64 = 1100;

/// Tunable weights of a session. Lower weights sort first, so the words
/// chosen are those whose combined weight is smallest.
#[derive(Debug)]
pub struct GameSettings<T> {
    pub core: T,
    pub common: T,
    pub uncommon: T,
    pub obscure: T,
    pub sandbox: T,
    pub deprecated: T,
    pub nondeprecated: T,
    /// Per-identifier overrides; the first entry for an identifier counts.
    pub words: Vec<(String, T)>,
    /// Number of words in the target phrase.
    pub len: usize,
}

/// The override for identifier `id` among `entries`, or `default` when none
/// is given.
pub open spec fn override_of(entries: Seq<(String, u64)>, id: Seq<char>, default: u64) -> u64
    decreases entries.len(),
{
    if entries.len() == 0 {
        default
    } else if entries[0].0@ == id {
        entries[0].1
    } else {
        override_of(entries.drop_first(), id, default)
    }
}

/// A weight clamped to the largest `u64`.
pub open spec fn capped(x: int) -> u64 {
    if x > u64::MAX {
        u64::MAX
    } else if x < 0 {
        0
    } else {
        x as u64
    }
}

impl GameSettings<u64> {
    /// The per-word weight of an identifier without an override.
    pub const DEFAULT: u64 = 1000;

    /// All weights are positive.
    pub open spec fn wf(&self) -> bool {
        &&& self.core > 0
        &&& self.common > 0
        &&& self.uncommon > 0
        &&& self.obscure > 0
        &&& self.sandbox > 0
        &&& self.deprecated > 0
        &&& self.nondeprecated > 0
        &&& forall|k: int| 0 <= k < self.words@.len() ==> #[trigger] self.words@[k].1 > 0
    }

    pub open spec fn spec_category_weight(&self, c: UsageCategory) -> u64 {
        match c {
            UsageCategory::Core => self.core,
            UsageCategory::Common => self.common,
            UsageCategory::Uncommon => self.uncommon,
            UsageCategory::Obscure => self.obscure,
            UsageCategory::Sandbox => self.sandbox,
        }
    }

    pub open spec fn spec_deprecation_weight(&self, deprecated: bool) -> u64 {
        if deprecated {
            self.deprecated
        } else {
            self.nondeprecated
        }
    }

    pub open spec fn spec_get_word(&self, id: Seq<char>) -> u64 {
        override_of(self.words@, id, Self::DEFAULT)
    }

    /// The product of the three factors of a record, before jitter.
    pub open spec fn base_weight(&self, r: &CorpusRecord) -> int {
        self.spec_category_weight(r.usage_category) * self.spec_deprecation_weight(r.deprecated)
            * self.spec_get_word(r.id@)
    }

    /// The weight of a record under jitter factor `jitter`, clamped to `u64`.
    pub open spec fn spec_weight(&self, r: &CorpusRecord, jitter: u64) -> u64 {
        capped(self.base_weight(r) * jitter)
    }

    /// The per-word weight of identifier `word`: its override, else the default.
    pub fn get_word(&self, word: &str) -> (r: u64)
        ensures
            r == self.spec_get_word(word@),
    {
        let n = self.words.len();
        let mut k: usize = 0;
        assert(self.words@.subrange(0, n as int) =~= self.words@);
        while k < n
            invariant
                n == self.words@.len(),
                k <= n,
                override_of(self.words@.subrange(k as int, n as int), word@, Self::DEFAULT)
                    == self.spec_get_word(word@),
            decreases n - k,
        {
            let ghost rest = self.words@.subrange(k as int, n as int);
            if same_text(self.words[k].0.as_str(), word) {
                return self.words[k].1;
            }
            assert(rest.drop_first() =~= self.words@.subrange(k + 1, n as int));
            k = k + 1;
        }
        Self::DEFAULT
    }

    /// The weight of a usage category.
    pub fn category_weight(&self, c: UsageCategory) -> (r: u64)
        ensures
            r == self.spec_category_weight(c),
    {
        match c {
            UsageCategory::Core => self.core,
            UsageCategory::Common => self.common,
            UsageCategory::Uncommon => self.uncommon,
            UsageCategory::Obscure => self.obscure,
            UsageCategory::Sandbox => self.sandbox,
        }
    }

    /// The weight of a deprecation flag.
    pub fn deprecation_weight(&self, deprecated: bool) -> (r: u64)
        ensures
            r == self.spec_deprecation_weight(deprecated),
    {
        if deprecated {
            self.deprecated
        } else {
            self.nondeprecated
        }
    }

    /// The weight of a record under a given jitter factor: the product of its
    /// category, deprecation and per-word weights and the jitter, clamped to
    /// `u64`.
    pub fn weight_with_jitter(&self, r: &CorpusRecord, jitter: u64) -> (w: u64)
        ensures
            w == self.spec_weight(r, jitter),
    {
        let c = self.category_weight(r.usage_category);
        let d = self.deprecation_weight(r.deprecated);
        let o = self.get_word(r.id.as_str());
        let ghost total: int = c * d * o * jitter;
        assert(total == self.base_weight(r) * jitter);
        if c == 0 || d == 0 || o == 0 || jitter == 0 {
            assert(total == 0) by (nonlinear_arith)
                requires
                    total == c * d * o * jitter,
                    c == 0 || d == 0 || o == 0 || jitter == 0,
            ;
            return 0;
        }
        match c.checked_mul(d) {
            None => {
                assert(total > u64::MAX) by (nonlinear_arith)
                    requires
                        total == c * d * o * jitter,
                        c * d > u64::MAX,
                        o >= 1,
                        jitter >= 1,
                ;
                u64::MAX
            },
            Some(cd) => match cd.checked_mul(o) {
                None => {
                    assert(total > u64::MAX) by (nonlinear_arith)
                        requires
                            total == cd * o * jitter,
                            cd * o > u64::MAX,
                            jitter >= 1,
                    ;
                    u64::MAX
                },
                Some(cdo) => match cdo.checked_mul(jitter) {
                    None => u64::MAX,
                    Some(w) => w,
                },
            },
        }
    }

    /// The weight of a record under a jitter factor drawn at random from
    /// `JITTER_MIN..JITTER_END`.
    pub fn weight(&self, r: &CorpusRecord) -> (w: u64)
        ensures
            exists|j: u64| JITTER_MIN <= j < JITTER_END && w == self.spec_weight(r, j),
    {
        let j = draw_in_range(JITTER_MIN, JITTER_END);
        self.weight_with_jitter(r, j)
    }
}

impl Default for GameSettings<u64> {
    /// Core words weigh least, then common, uncommon, obscure and sandbox
    /// words; deprecated words weigh as much as sandbox ones; no overrides;
    /// sixty words.
    fn default() -> (r: Self)
        ensures
            r.core == Self::DEFAULT,
            r.common == Self::DEFAULT * 200,
            r.uncommon == Self::DEFAULT * 400,
            r.obscure == Self::DEFAULT * 600,
            r.sandbox == Self::DEFAULT * 800,
            r.deprecated == Self::DEFAULT * 800,
            r.nondeprecated == Self::DEFAULT,
            r.words@.len() == 0,
            r.len == 60,
            r.wf(),
    {
        GameSettings {
            core: Self::DEFAULT,
            common: Self::DEFAULT * 200,
            uncommon: Self::DEFAULT * 400,
            obscure: Self::DEFAULT * 600,
            sandbox: Self::DEFAULT * 800,
            deprecated: Self::DEFAULT * 800,
            nondeprecated: Self::DEFAULT,
            words: Vec::new(),
            len: 60,
        }
    }
}

/// Relies on `rand::random_range`: a value drawn from the half-open range
/// `lo..hi`, which panics when the range is empty.
#[verifier::external_body]
pub(crate) fn draw_in_range(lo: u64, hi: u64) -> (r: u64)
    requires
        lo < hi,
    ensures
        lo <= r < hi,
{
    rand::random_range(lo..hi)
}

/// A positive weight stays positive after any jitter in range: the weight
/// of a record is never zero, and lies between the base weight scaled by
/// the lowest and by the highest jitter factor, or at the `u64` cap.
pub proof fn lemma_weight_bounds(s: GameSettings<u64>, r: CorpusRecord, jitter: u64)
    requires
        s.wf(),
        JITTER_MIN <= jitter < JITTER_END,
    ensures
        s.spec_weight(&r, jitter) > 0,
        s.base_weight(&r) * JITTER_MIN <= s.spec_weight(&r, jitter) || s.spec_weight(&r, jitter)
            == u64::MAX,
        s.spec_weight(&r, jitter) < s.base_weight(&r) * JITTER_END,
{
    let c = s.spec_category_weight(r.usage_category);
    let d = s.spec_deprecation_weight(r.deprecated);
    let o = s.spec_get_word(r.id@);
    lemma_override_positive(s.words@, r.id@, GameSettings::<u64>::DEFAULT);
    let b = s.base_weight(&r);
    assert(b >= 1) by (nonlinear_arith)
        requires
            b == c * d * o,
            c >= 1,
            d >= 1,
            o >= 1,
    ;
    assert(b * jitter >= b * JITTER_MIN) by (nonlinear_arith)
        requires
            b >= 1,
            jitter >= JITTER_MIN,
    ;
    assert(b * jitter < b * JITTER_END) by (nonlinear_arith)
        requires
            b >= 1,
            jitter < JITTER_END,
    ;
}

proof fn lemma_override_positive(entries: Seq<(String, u64)>, id: Seq<char>, default: u64)
    requires
        default > 0,
        forall|k: int| 0 <= k < entries.len() ==> #[trigger] entries[k].1 > 0,
    ensures
        override_of(entries, id, default) > 0,
    decreases entries.len(),
{
    if entries.len() > 0 {
        assert(entries[0].1 > 0);
        let rest = entries.drop_first();
        assert forall|k: int| 0 <= k < rest.len() implies #[trigger] rest[k].1 > 0 by {
            assert(entries[k + 1].1 > 0);
        }
        lemma_override_positive(rest, id, default);
    }
}

} // verus!
