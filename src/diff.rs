//! The diff engine: classifies every position of the typed input against the
//! target and compresses the classification into maximal runs.
use vstd::prelude::*;
use crate::span::{GameSpan, SpanClass};
use crate::text::{push_char, single_char_string};

verus! {

/// The character shown for a target character that the input has not reached:
/// a space stays a space, anything else becomes a blank marker.
pub open spec fn hidden_mark(t: char) -> char {
    if t == ' ' {
        ' '
    } else {
        '_'
    }
}

/// The per-position classification of input `i` against target `t`, as
/// (class, shown character) pairs. Each step consumes one character from
/// one or both sides, by the first rule that applies.
pub open spec fn classify(t: Seq<char>, i: Seq<char>) -> Seq<(SpanClass, char)>
    decreases t.len() + i.len(),
{
    if t.len() > 0 && i.len() > 0 && t[0] == i[0] {
        seq![(SpanClass::Correct, t[0])] + classify(t.drop_first(), i.drop_first())
    } else if t.len() > 0 && i.len() > 0 && i[0] == ' ' {
        seq![(SpanClass::Skipped, t[0])] + classify(t.drop_first(), i)
    } else if i.len() > 0 && (t.len() == 0 || t[0] == ' ') {
        seq![(SpanClass::Overflow, i[0])] + classify(t, i.drop_first())
    } else if t.len() > 0 && i.len() > 0 {
        seq![(SpanClass::Wrong, t[0])] + classify(t.drop_first(), i.drop_first())
    } else if t.len() > 0 {
        seq![(SpanClass::Hidden, hidden_mark(t[0]))] + classify(t.drop_first(), i)
    } else {
        seq![]
    }
}

/// Run-length compression: adjacent positions of one class form one run
/// holding their characters in order.
pub open spec fn merge(s: Seq<(SpanClass, char)>) -> Seq<(SpanClass, Seq<char>)>
    decreases s.len(),
{
    if s.len() == 0 {
        seq![]
    } else {
        let m = merge(s.drop_last());
        let x = s.last();
        if m.len() > 0 && m.last().0 == x.0 {
            m.update(m.len() - 1, (x.0, m.last().1.push(x.1)))
        } else {
            m.push((x.0, seq![x.1]))
        }
    }
}

/// The spans of input `i` against target `t`.
pub open spec fn diff(t: Seq<char>, i: Seq<char>) -> Seq<(SpanClass, Seq<char>)> {
    merge(classify(t, i))
}

/// The abstract value of a sequence of single-character spans.
pub open spec fn cells_view(v: Seq<GameSpan<char>>) -> Seq<(SpanClass, char)> {
    v.map_values(|g: GameSpan<char>| (g.class(), g.payload()))
}

/// The abstract value of a sequence of text spans.
pub open spec fn spans_view(v: Seq<GameSpan<String>>) -> Seq<(SpanClass, Seq<char>)> {
    v.map_values(|g: GameSpan<String>| (g.class(), g.payload()@))
}

/// Number of target characters consumed before the input ran out: from this
/// position on, the target is hidden.
pub open spec fn reached(t: Seq<char>, i: Seq<char>) -> nat
    decreases t.len() + i.len(),
{
    if i.len() == 0 {
        0
    } else if t.len() > 0 && t[0] == i[0] {
        1 + reached(t.drop_first(), i.drop_first())
    } else if t.len() > 0 && i[0] == ' ' {
        1 + reached(t.drop_first(), i)
    } else if t.len() == 0 || t[0] == ' ' {
        reached(t, i.drop_first())
    } else {
        1 + reached(t.drop_first(), i.drop_first())
    }
}

/// The target with every character at or after position `p` replaced by its
/// hidden mark.
pub open spec fn masked(t: Seq<char>, p: nat) -> Seq<char> {
    Seq::new(t.len(), |k: int| if k < p { t[k] } else { hidden_mark(t[k]) })
}

/// The shown characters of the positions that stand for target characters
/// (every class but Overflow), in order.
pub open spec fn target_part(s: Seq<(SpanClass, char)>) -> Seq<char>
    decreases s.len(),
{
    if s.len() == 0 {
        seq![]
    } else if s.last().0 == SpanClass::Overflow {
        target_part(s.drop_last())
    } else {
        target_part(s.drop_last()).push(s.last().1)
    }
}

/// The concatenated texts of the Correct, Wrong, Skipped and Hidden runs.
pub open spec fn target_text(m: Seq<(SpanClass, Seq<char>)>) -> Seq<char>
    decreases m.len(),
{
    if m.len() == 0 {
        seq![]
    } else if m.last().0 == SpanClass::Overflow {
        target_text(m.drop_last())
    } else {
        target_text(m.drop_last()) + m.last().1
    }
}

/// Adjacent runs of the compression never share a class.
pub proof fn lemma_merge_adjacent_classes_differ(s: Seq<(SpanClass, char)>)
    ensures
        forall|k: int|
            0 <= k < merge(s).len() - 1 ==> #[trigger] merge(s)[k].0 != merge(s)[k + 1].0,
    decreases s.len(),
{
    if s.len() > 0 {
        lemma_merge_adjacent_classes_differ(s.drop_last());
        let m = merge(s.drop_last());
        let x = s.last();
        if m.len() > 0 && m.last().0 == x.0 {
            let u = m.update(m.len() - 1, (x.0, m.last().1.push(x.1)));
            assert forall|k: int| 0 <= k < u.len() - 1 implies #[trigger] u[k].0 != u[k + 1].0 by {
                assert(m[k].0 != m[k + 1].0);
            }
        } else {
            let u = m.push((x.0, seq![x.1]));
            assert forall|k: int| 0 <= k < u.len() - 1 implies #[trigger] u[k].0 != u[k + 1].0 by {
                if k < m.len() - 1 {
                    assert(m[k].0 != m[k + 1].0);
                }
            }
        }
    }
}

/// The target part of a concatenation is the concatenation of the target parts.
pub proof fn lemma_target_part_concat(a: Seq<(SpanClass, char)>, b: Seq<(SpanClass, char)>)
    ensures
        target_part(a + b) == target_part(a) + target_part(b),
    decreases b.len(),
{
    if b.len() == 0 {
        assert(a + b =~= a);
        assert(target_part(a) + target_part(b) =~= target_part(a));
    } else {
        assert((a + b).drop_last() =~= a + b.drop_last());
        lemma_target_part_concat(a, b.drop_last());
        if b.last().0 != SpanClass::Overflow {
            assert(target_part(a + b) =~= target_part(a) + target_part(b));
        }
    }
}

/// Compression keeps the target-derived characters: the texts of the
/// non-Overflow runs spell the non-Overflow positions in order.
pub proof fn lemma_merge_target_text(s: Seq<(SpanClass, char)>)
    ensures
        target_text(merge(s)) == target_part(s),
    decreases s.len(),
{
    if s.len() > 0 {
        lemma_merge_target_text(s.drop_last());
        let m = merge(s.drop_last());
        let x = s.last();
        if m.len() > 0 && m.last().0 == x.0 {
            let u = m.update(m.len() - 1, (x.0, m.last().1.push(x.1)));
            assert(u.drop_last() =~= m.drop_last());
            if x.0 != SpanClass::Overflow {
                assert(target_text(u) =~= target_text(m).push(x.1));
            }
        } else {
            assert(m.push((x.0, seq![x.1])).drop_last() =~= m);
            if x.0 != SpanClass::Overflow {
                assert(target_text(m) + seq![x.1] =~= target_text(m).push(x.1));
            }
        }
    }
}

proof fn lemma_target_part_single(x: (SpanClass, char))
    ensures
        target_part(seq![x]) == (if x.0 == SpanClass::Overflow {
            Seq::<char>::empty()
        } else {
            seq![x.1]
        }),
{
    assert(seq![x].drop_last() =~= Seq::<(SpanClass, char)>::empty());
    assert(target_part(Seq::<(SpanClass, char)>::empty()) == Seq::<char>::empty());
    assert(Seq::<char>::empty().push(x.1) =~= seq![x.1]);
}

/// The target-derived positions of the classification spell the target,
/// masked from the point where the input ran out.
pub proof fn lemma_classify_target_part(t: Seq<char>, i: Seq<char>)
    ensures
        target_part(classify(t, i)) == masked(t, reached(t, i)),
    decreases t.len() + i.len(),
{
    let c = classify(t, i);
    if t.len() > 0 && i.len() > 0 && t[0] == i[0] {
        lemma_classify_target_part(t.drop_first(), i.drop_first());
        lemma_target_part_concat(seq![(SpanClass::Correct, t[0])], classify(t.drop_first(), i.drop_first()));
        lemma_target_part_single((SpanClass::Correct, t[0]));
        assert(masked(t, reached(t, i)) =~= seq![t[0]] + masked(t.drop_first(), reached(t.drop_first(), i.drop_first())));
    } else if t.len() > 0 && i.len() > 0 && i[0] == ' ' {
        lemma_classify_target_part(t.drop_first(), i);
        lemma_target_part_concat(seq![(SpanClass::Skipped, t[0])], classify(t.drop_first(), i));
        lemma_target_part_single((SpanClass::Skipped, t[0]));
        assert(masked(t, reached(t, i)) =~= seq![t[0]] + masked(t.drop_first(), reached(t.drop_first(), i)));
    } else if i.len() > 0 && (t.len() == 0 || t[0] == ' ') {
        lemma_classify_target_part(t, i.drop_first());
        lemma_target_part_concat(seq![(SpanClass::Overflow, i[0])], classify(t, i.drop_first()));
        lemma_target_part_single((SpanClass::Overflow, i[0]));
        assert(target_part(c) =~= target_part(classify(t, i.drop_first())));
    } else if t.len() > 0 && i.len() > 0 {
        lemma_classify_target_part(t.drop_first(), i.drop_first());
        lemma_target_part_concat(seq![(SpanClass::Wrong, t[0])], classify(t.drop_first(), i.drop_first()));
        lemma_target_part_single((SpanClass::Wrong, t[0]));
        assert(masked(t, reached(t, i)) =~= seq![t[0]] + masked(t.drop_first(), reached(t.drop_first(), i.drop_first())));
    } else if t.len() > 0 {
        lemma_classify_target_part(t.drop_first(), i);
        lemma_target_part_concat(seq![(SpanClass::Hidden, hidden_mark(t[0]))], classify(t.drop_first(), i));
        lemma_target_part_single((SpanClass::Hidden, hidden_mark(t[0])));
        assert(reached(t, i) == 0);
        assert(reached(t.drop_first(), i) == 0);
        assert(masked(t, 0) =~= seq![hidden_mark(t[0])] + masked(t.drop_first(), 0));
    } else {
        assert(masked(t, reached(t, i)) =~= Seq::<char>::empty());
    }
}

/// No two adjacent spans of a diff share a class.
pub proof fn lemma_diff_adjacent_classes_differ(t: Seq<char>, i: Seq<char>)
    ensures
        forall|k: int|
            0 <= k < diff(t, i).len() - 1 ==> #[trigger] diff(t, i)[k].0 != diff(t, i)[k + 1].0,
{
    lemma_merge_adjacent_classes_differ(classify(t, i));
}

/// The Correct, Wrong, Skipped and Hidden span texts of a diff, concatenated
/// in order, give back the target, where every character the input has not
/// reached is shown by its hidden mark. So they give back the target exactly
/// whenever each unreached target character is a space or the blank marker
/// itself, in particular once the input has reached the end of the target.
pub proof fn lemma_diff_reconstructs_target(t: Seq<char>, i: Seq<char>)
    ensures
        target_text(diff(t, i)) == masked(t, reached(t, i)),
        (forall|k: int| reached(t, i) <= k < t.len() ==> t[k] == ' ' || t[k] == '_')
            ==> target_text(diff(t, i)) == t,
{
    lemma_merge_target_text(classify(t, i));
    lemma_classify_target_part(t, i);
    assert((forall|k: int| reached(t, i) <= k < t.len() ==> t[k] == ' ' || t[k] == '_')
        ==> masked(t, reached(t, i)) =~= t);
}

/// Classifies every position of `input` against `target`.
pub fn classify_positions(target: &Vec<char>, input: &Vec<char>) -> (r: Vec<GameSpan<char>>)
    ensures
        cells_view(r@) == classify(target@, input@),
{
    let tn = target.len();
    let inn = input.len();
    let mut out: Vec<GameSpan<char>> = Vec::new();
    let mut a: usize = 0;
    let mut b: usize = 0;
    assert(target@.subrange(0, tn as int) =~= target@);
    assert(input@.subrange(0, inn as int) =~= input@);
    assert(cells_view(out@) + classify(target@, input@) =~= classify(target@, input@));
    while a < tn || b < inn
        invariant
            tn == target@.len(),
            inn == input@.len(),
            a <= tn,
            b <= inn,
            cells_view(out@) + classify(target@.subrange(a as int, tn as int), input@.subrange(
                b as int,
                inn as int,
            )) == classify(target@, input@),
        decreases (tn - a) + (inn - b),
    {
        let ghost t = target@.subrange(a as int, tn as int);
        let ghost i = input@.subrange(b as int, inn as int);
        let ghost before = out@;
        let cell: GameSpan<char>;
        if a < tn && b < inn && target[a] == input[b] {
            cell = GameSpan::Correct(target[a]);
            assert(t.drop_first() =~= target@.subrange(a + 1, tn as int));
            assert(i.drop_first() =~= input@.subrange(b + 1, inn as int));
            a = a + 1;
            b = b + 1;
        } else if a < tn && b < inn && input[b] == ' ' {
            cell = GameSpan::Skipped(target[a]);
            assert(t.drop_first() =~= target@.subrange(a + 1, tn as int));
            a = a + 1;
        } else if b < inn && (a >= tn || target[a] == ' ') {
            cell = GameSpan::Overflow(input[b]);
            assert(i.drop_first() =~= input@.subrange(b + 1, inn as int));
            b = b + 1;
        } else if a < tn && b < inn {
            cell = GameSpan::Wrong(target[a]);
            assert(t.drop_first() =~= target@.subrange(a + 1, tn as int));
            assert(i.drop_first() =~= input@.subrange(b + 1, inn as int));
            a = a + 1;
            b = b + 1;
        } else {
            cell = GameSpan::Hidden(if target[a] == ' ' { ' ' } else { '_' });
            assert(t.drop_first() =~= target@.subrange(a + 1, tn as int));
            a = a + 1;
        }
        out.push(cell);
        assert(cells_view(out@) =~= cells_view(before) + seq![(cell.class(), cell.payload())]);
        assert(cells_view(out@) + classify(target@.subrange(a as int, tn as int), input@.subrange(
            b as int,
            inn as int,
        )) =~= cells_view(before) + classify(t, i));
    }
    assert(target@.subrange(a as int, tn as int) =~= Seq::<char>::empty());
    assert(input@.subrange(b as int, inn as int) =~= Seq::<char>::empty());
    assert(cells_view(out@) =~= cells_view(out@) + Seq::<(SpanClass, char)>::empty());
    out
}

/// Compresses single-character spans into maximal runs of one class.
pub fn merge_runs(cells: &Vec<GameSpan<char>>) -> (r: Vec<GameSpan<String>>)
    ensures
        spans_view(r@) == merge(cells_view(cells@)),
{
    let n = cells.len();
    let mut out: Vec<GameSpan<String>> = Vec::new();
    let mut j: usize = 0;
    assert(cells_view(cells@).take(0) =~= Seq::<(SpanClass, char)>::empty());
    while j < n
        invariant
            n == cells@.len(),
            j <= n,
            spans_view(out@) == merge(cells_view(cells@).take(j as int)),
        decreases n - j,
    {
        let ghost cs = cells_view(cells@);
        let ghost before = out@;
        let cell = &cells[j];
        let class = cell.get_class();
        let ch = *cell.get_payload();
        assert(cs.take(j + 1).drop_last() =~= cs.take(j as int));
        assert(cs.take(j + 1).last() == (class, ch));
        let len = out.len();
        if len > 0 && out[len - 1].get_class() == class {
            let last = out.pop().unwrap();
            let mut text = last.into_payload();
            push_char(&mut text, ch);
            out.push(GameSpan::new(class, text));
            assert(spans_view(out@) =~= spans_view(before).update(
                len - 1,
                (class, spans_view(before).last().1.push(ch)),
            ));
        } else {
            let span = cell.map(single_char_string);
            out.push(span);
            assert(spans_view(out@) =~= spans_view(before).push((class, seq![ch])));
        }
        j = j + 1;
    }
    assert(cells_view(cells@).take(n as int) =~= cells_view(cells@));
    out
}

/// The spans of `input` against `target`: the per-position classification,
/// compressed into maximal runs. Total over all inputs.
pub fn compute_spans(target: &Vec<char>, input: &Vec<char>) -> (r: Vec<GameSpan<String>>)
    ensures
        spans_view(r@) == diff(target@, input@),
{
    let cells = classify_positions(target, input);
    merge_runs(&cells)
}

} // verus!
