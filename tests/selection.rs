use tt::corpus::{parse_category, CorpusError, CorpusRecord, UsageCategory};
use tt::select::{SelectError, WordSelector};
use tt::settings::{GameSettings, JITTER_END, JITTER_MIN};
use tt::text::{chars_of, same_text, single_char_string};

fn record(id: &str, cat: UsageCategory, deprecated: bool, word: Option<&str>) -> CorpusRecord {
    CorpusRecord {
        id: id.to_string(),
        usage_category: cat,
        deprecated,
        word: word.map(|w| w.to_string()),
        definition: None,
        examples: Vec::new(),
    }
}

fn corpus() -> Vec<CorpusRecord> {
    vec![
        record("kijetesantakalu", UsageCategory::Obscure, false, Some("kijetesantakalu")),
        record("toki", UsageCategory::Core, false, Some("toki")),
        record("kin", UsageCategory::Common, false, Some("kin")),
        record("nowordhere", UsageCategory::Core, false, None),
        record("pona", UsageCategory::Core, false, Some("pona")),
        record("pu", UsageCategory::Core, true, Some("pu")),
    ]
}

#[test]
fn weight_of_default_core_word() {
    let s = GameSettings::<u64>::default();
    let r = record("mi", UsageCategory::Core, false, Some("mi"));
    assert_eq!(s.weight_with_jitter(&r, 900), 1000 * 1000 * 1000 * 900);
    assert_eq!(s.weight_with_jitter(&r, 1099), 1000 * 1000 * 1000 * 1099);
    for _ in 0..200 {
        let w = s.weight(&r);
        assert!(w >= 1000 * 1000 * 1000 * JITTER_MIN);
        assert!(w < 1000 * 1000 * 1000 * JITTER_END);
        assert!(w > 0);
    }
}

#[test]
fn weight_factors_combine() {
    let mut s = GameSettings::<u64>::default();
    s.words.push(("pu".to_string(), 7));
    let r = record("pu", UsageCategory::Sandbox, true, Some("pu"));
    assert_eq!(s.weight_with_jitter(&r, 1000), 800_000 * 800_000 * 7 * 1000);
}

#[test]
fn weight_saturates() {
    let mut s = GameSettings::<u64>::default();
    s.core = u64::MAX / 2;
    let r = record("mi", UsageCategory::Core, false, Some("mi"));
    assert_eq!(s.weight_with_jitter(&r, 1000), u64::MAX);
    assert_eq!(s.weight_with_jitter(&r, 0), 0);
}

#[test]
fn per_word_override_first_entry_counts() {
    let mut s = GameSettings::<u64>::default();
    assert_eq!(s.get_word("toki"), 1000);
    s.words.push(("toki".to_string(), 5));
    s.words.push(("toki".to_string(), 9));
    assert_eq!(s.get_word("toki"), 5);
    assert_eq!(s.get_word("tok"), 1000);
}

#[test]
fn default_settings() {
    let s = GameSettings::<u64>::default();
    assert_eq!(s.category_weight(UsageCategory::Core), 1000);
    assert_eq!(s.category_weight(UsageCategory::Common), 200_000);
    assert_eq!(s.category_weight(UsageCategory::Uncommon), 400_000);
    assert_eq!(s.category_weight(UsageCategory::Obscure), 600_000);
    assert_eq!(s.category_weight(UsageCategory::Sandbox), 800_000);
    assert_eq!(s.deprecation_weight(true), 800_000);
    assert_eq!(s.deprecation_weight(false), 1000);
    assert_eq!(s.len, 60);
}

#[test]
fn select_orders_by_weight_ties_in_corpus_order() {
    let mut s = GameSettings::<u64>::default();
    s.len = 3;
    let c = corpus();
    let jitters = vec![1000; c.len()];
    let p = WordSelector::select_with_jitters(&c, &s, &jitters).unwrap();
    assert_eq!(p.records, vec![1, 4, 2]);
    assert_eq!(p.words, vec!["toki".to_string(), "pona".to_string(), "kin".to_string()]);
    assert_eq!(p.text, "toki pona kin");
}

#[test]
fn select_jitter_breaks_ties() {
    let mut s = GameSettings::<u64>::default();
    s.len = 2;
    let c = corpus();
    let jitters = vec![1000, 1050, 1000, 1000, 950, 1000];
    let p = WordSelector::select_with_jitters(&c, &s, &jitters).unwrap();
    assert_eq!(p.text, "pona toki");
}

#[test]
fn select_word_count_is_min_of_len_and_eligible() {
    let c = corpus();
    for len in [0usize, 1, 3, 5, 6, 60] {
        let mut s = GameSettings::<u64>::default();
        s.len = len;
        let p = WordSelector::select(&c, &s).unwrap();
        assert_eq!(p.words.len(), len.min(5));
        assert_eq!(p.records.len(), len.min(5));
        if len > 0 {
            assert_eq!(p.text.split(' ').count(), len.min(5));
        }
        assert!(!p.records.contains(&3));
    }
}

#[test]
fn select_without_words_fails() {
    let c = vec![record("a", UsageCategory::Core, false, None)];
    let s = GameSettings::<u64>::default();
    assert_eq!(WordSelector::select(&c, &s).unwrap_err(), SelectError::NoWords);
    assert_eq!(WordSelector::select(&Vec::new(), &s).unwrap_err(), SelectError::NoWords);
}

#[test]
fn category_names() {
    assert_eq!(parse_category("core"), Some(UsageCategory::Core));
    assert_eq!(parse_category("common"), Some(UsageCategory::Common));
    assert_eq!(parse_category("uncommon"), Some(UsageCategory::Uncommon));
    assert_eq!(parse_category("obscure"), Some(UsageCategory::Obscure));
    assert_eq!(parse_category("sandbox"), Some(UsageCategory::Sandbox));
    assert_eq!(parse_category("Core"), None);
    assert_eq!(parse_category(""), None);
}

#[test]
fn record_integrity_errors() {
    let mk = |cat: Option<&str>, dep: Option<bool>| {
        CorpusRecord::from_fields("a".to_string(), cat, dep, Some("a".to_string()), None, Vec::new())
    };
    assert_eq!(mk(None, Some(true)).unwrap_err(), CorpusError::MissingCategory);
    assert_eq!(mk(Some("rare"), Some(true)).unwrap_err(), CorpusError::UnknownCategory);
    assert_eq!(mk(Some("core"), None).unwrap_err(), CorpusError::MissingDeprecated);
    let r = mk(Some("obscure"), Some(true)).unwrap();
    assert_eq!(r.usage_category, UsageCategory::Obscure);
    assert!(r.deprecated);
    assert_eq!(r.word.as_deref(), Some("a"));
}

#[test]
fn string_helpers() {
    assert_eq!(single_char_string(&'ŝ'), "ŝ");
    assert!(same_text("ŝipo", "ŝipo"));
    assert!(!same_text("ŝipo", "ŝipa"));
    assert!(!same_text("a", "ab"));
    assert_eq!(chars_of("aŝb"), vec!['a', 'ŝ', 'b']);
}
