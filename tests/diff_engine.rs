use tt::diff::{classify_positions, compute_spans, merge_runs};
use tt::span::{GameSpan, SpanClass};

fn chars(s: &str) -> Vec<char> {
    s.chars().collect()
}

fn spans(target: &str, input: &str) -> Vec<GameSpan<String>> {
    compute_spans(&chars(target), &chars(input))
}

fn text(class: SpanClass, s: &str) -> GameSpan<String> {
    GameSpan::new(class, s.to_string())
}

#[test]
fn toki_pona_partial_input() {
    // "toki p" matches; 'o' against 'a' is wrong; 'n' matches; the final 'a'
    // is not reached yet and is hidden.
    let r = spans("toki pona", "toki pan");
    assert_eq!(
        r,
        vec![
            text(SpanClass::Correct, "toki p"),
            text(SpanClass::Wrong, "o"),
            text(SpanClass::Correct, "n"),
            text(SpanClass::Hidden, "_"),
        ]
    );
    let target_chars: usize = r
        .iter()
        .filter(|s| s.get_class() != SpanClass::Overflow)
        .map(|s| s.get_payload().chars().count())
        .sum();
    assert_eq!(target_chars, 9);
}

#[test]
fn overflow_after_last_word() {
    assert_eq!(
        spans("mi", "mix"),
        vec![text(SpanClass::Correct, "mi"), text(SpanClass::Overflow, "x")]
    );
}

#[test]
fn empty_target_and_input() {
    assert!(spans("", "").is_empty());
}

#[test]
fn empty_input_hides_letters_keeps_spaces() {
    assert_eq!(spans("mi moku", ""), vec![text(SpanClass::Hidden, "__ ____")]);
}

#[test]
fn input_on_empty_target_overflows() {
    assert_eq!(spans("", "ab"), vec![text(SpanClass::Overflow, "ab")]);
}

#[test]
fn early_space_skips_rest_of_word() {
    assert_eq!(
        spans("toki pona", "to p"),
        vec![
            text(SpanClass::Correct, "to"),
            text(SpanClass::Skipped, "ki"),
            text(SpanClass::Correct, " p"),
            text(SpanClass::Hidden, "___"),
        ]
    );
}

#[test]
fn extra_letters_before_space_overflow() {
    assert_eq!(
        spans("mi moku", "mii m"),
        vec![
            text(SpanClass::Correct, "mi"),
            text(SpanClass::Overflow, "i"),
            text(SpanClass::Correct, " m"),
            text(SpanClass::Hidden, "___"),
        ]
    );
}

#[test]
fn wrong_letters_show_target() {
    assert_eq!(
        spans("pona", "pina"),
        vec![
            text(SpanClass::Correct, "p"),
            text(SpanClass::Wrong, "o"),
            text(SpanClass::Correct, "na"),
        ]
    );
}

#[test]
fn recomputing_gives_same_spans() {
    let t = chars("jan li moku");
    let i = chars("jan lo mo");
    assert_eq!(compute_spans(&t, &i), compute_spans(&t, &i));
}

#[test]
fn adjacent_spans_differ_in_class() {
    for (t, i) in [("toki pona", "toki pan"), ("a b c", "x  c d"), ("mi", "mix"), ("sina", "s na")] {
        let r = spans(t, i);
        for w in r.windows(2) {
            assert_ne!(w[0].get_class(), w[1].get_class());
        }
    }
}

#[test]
fn target_texts_rebuild_typed_target() {
    for (t, i) in [("toki pona", "toki pona"), ("mi moku", "mu moki"), ("a b", "a  b")] {
        let r = spans(t, i);
        let rebuilt: String = r
            .iter()
            .filter(|s| s.get_class() != SpanClass::Overflow)
            .map(|s| s.get_payload().clone())
            .collect();
        assert_eq!(rebuilt, t);
    }
}

#[test]
fn classification_then_merge() {
    let cells = classify_positions(&chars("ab"), &chars("ax"));
    assert_eq!(cells, vec![GameSpan::Correct('a'), GameSpan::Wrong('b')]);
    let merged = merge_runs(&cells);
    assert_eq!(merged, vec![text(SpanClass::Correct, "a"), text(SpanClass::Wrong, "b")]);
}

#[test]
fn map_keeps_class() {
    let s = GameSpan::Skipped('q');
    let m = s.map(|c| c.to_string());
    assert_eq!(m, GameSpan::Skipped("q".to_string()));
    assert_eq!(GameSpan::Overflow(3).into_payload(), 3);
}
