use tt::corpus::{CorpusRecord, UsageCategory};
use tt::metrics::{percentage, words_per_minute};
use tt::select::{SelectError, TargetPhrase};
use tt::session::{count_occurrences, same_chars, split_on_spaces, Game, KeyInput};
use tt::settings::GameSettings;
use tt::span::{GameSpan, SpanClass};

fn phrase(words: &[&str]) -> TargetPhrase {
    TargetPhrase {
        records: (0..words.len()).collect(),
        words: words.iter().map(|w| w.to_string()).collect(),
        text: words.join(" "),
    }
}

fn type_str(g: &mut Game, s: &str, t: u64) {
    for c in s.chars() {
        assert!(g.handle_key(KeyInput::Char(c), t));
    }
}

#[test]
fn wpm_thirty_seconds_ten_words() {
    assert_eq!(words_per_minute(30_000, 10), Some(20));
}

#[test]
fn wpm_rounds_and_guards_zero() {
    assert_eq!(words_per_minute(0, 10), None);
    assert_eq!(words_per_minute(7_000, 1), Some(9));
    assert_eq!(words_per_minute(1, u64::MAX), None);
}

#[test]
fn percentage_rounds_half_up() {
    assert_eq!(percentage(1, 3), Some(33));
    assert_eq!(percentage(2, 3), Some(67));
    assert_eq!(percentage(1, 2), Some(50));
    assert_eq!(percentage(0, 0), None);
    assert_eq!(percentage(5, 5), Some(100));
}

#[test]
fn fresh_session_hides_everything() {
    let g = Game::from_phrase(phrase(&["mi", "moku"]));
    assert_eq!(g.spans, vec![GameSpan::Hidden("__ ____".to_string())]);
    assert_eq!(g.start_ms, None);
    assert_eq!(g.wpm(), None);
}

#[test]
fn typing_records_start_and_end() {
    let mut g = Game::from_phrase(phrase(&["mi", "moku"]));
    assert!(g.handle_key(KeyInput::Other, 5));
    assert_eq!(g.start_ms, None);
    type_str(&mut g, "mi mok", 1_000);
    assert_eq!(g.start_ms, Some(1_000));
    assert_eq!(g.end_ms, None);
    assert!(g.handle_key(KeyInput::Char('u'), 61_000));
    assert_eq!(g.end_ms, Some(61_000));
    assert_eq!(g.wpm(), Some(2));
    assert_eq!(g.key_log.len(), 8);
    assert_eq!(g.spans, vec![GameSpan::Correct("mi moku".to_string())]);
    assert_eq!(g.char_accuracy(), Some(100));
    assert_eq!(g.word_accuracy(), Some(100));
}

#[test]
fn space_on_last_word_completes() {
    let mut g = Game::from_phrase(phrase(&["sina", "pona"]));
    type_str(&mut g, "sina p ", 10);
    assert_eq!(g.end_ms, Some(10));
    assert_eq!(g.word_accuracy(), Some(50));
}

#[test]
fn backspace_and_quit() {
    let mut g = Game::from_phrase(phrase(&["ala"]));
    assert!(g.handle_key(KeyInput::Backspace, 1));
    assert!(g.input.is_empty());
    type_str(&mut g, "ax", 2);
    assert!(g.handle_key(KeyInput::Backspace, 3));
    assert_eq!(g.input, vec!['a']);
    assert_eq!(
        g.spans,
        vec![GameSpan::Correct("a".to_string()), GameSpan::Hidden("__".to_string())]
    );
    let log_len = g.key_log.len();
    assert!(!g.handle_key(KeyInput::Quit, 4));
    assert_eq!(g.key_log.len(), log_len);
    assert_eq!(g.input, vec!['a']);
}

#[test]
fn char_accuracy_counts_correct_positions() {
    let mut g = Game::from_phrase(phrase(&["pona"]));
    type_str(&mut g, "pina", 1);
    assert_eq!(g.char_accuracy(), Some(75));
    assert_eq!(g.word_accuracy(), Some(0));
}

#[test]
fn calculate_spans_is_stable() {
    let mut g = Game::from_phrase(phrase(&["toki", "pona"]));
    type_str(&mut g, "toki pan", 1);
    let first: Vec<(SpanClass, String)> =
        g.spans.iter().map(|s| (s.get_class(), s.get_payload().clone())).collect();
    g.calculate_spans();
    let second: Vec<(SpanClass, String)> =
        g.spans.iter().map(|s| (s.get_class(), s.get_payload().clone())).collect();
    assert_eq!(first, second);
}

#[test]
fn focus_follows_spaces() {
    let mut g = Game::from_phrase(phrase(&["a", "b", "c"]));
    assert_eq!(g.focus_words(), (Some(0), Some(1)));
    type_str(&mut g, "a", 1);
    assert_eq!(g.focus_words(), (Some(0), Some(1)));
    type_str(&mut g, " ", 1);
    assert_eq!(g.focus_words(), (Some(1), Some(2)));
    type_str(&mut g, "b", 1);
    assert_eq!(g.focus_words(), (Some(0), Some(1)));
    type_str(&mut g, " c ", 1);
    assert_eq!(g.focus_words(), (None, None));
}

#[test]
fn new_game_from_corpus() {
    let corpus = vec![CorpusRecord {
        id: "toki".to_string(),
        usage_category: UsageCategory::Core,
        deprecated: false,
        word: Some("toki".to_string()),
        definition: Some("speech".to_string()),
        examples: Vec::new(),
    }];
    let g = Game::new(&corpus, &GameSettings::<u64>::default()).unwrap();
    assert_eq!(g.target, vec!['t', 'o', 'k', 'i']);
    assert_eq!(g.word_count(), 1);
    assert_eq!(Game::new(&Vec::new(), &GameSettings::<u64>::default()).unwrap_err(), SelectError::NoWords);
}

#[test]
fn splitting_and_counting() {
    let s: Vec<char> = "a  bc ".chars().collect();
    let w = split_on_spaces(&s);
    assert_eq!(w, vec![vec!['a'], vec![], vec!['b', 'c'], vec![]]);
    assert_eq!(count_occurrences(&s, ' '), 3);
    assert!(same_chars(&vec!['x'], &vec!['x']));
    assert!(!same_chars(&vec!['x'], &vec!['y']));
}
