//! Classified runs of characters produced by the diff engine.
use vstd::prelude::*;

verus! {

/// The classification of one position of the comparison.
#[derive(Clone, Copy, Debug, PartialEq, Eq, Structural)]
pub enum SpanClass {
    Correct,
    Wrong,
    Overflow,
    Skipped,
    Hidden,
}

/// A run of one class, carrying a payload (a character, or the text of the run).
#[derive(Debug, PartialEq, Eq)]
pub enum GameSpan<T> {
    Correct(T),
    Wrong(T),
    Overflow(T),
    Skipped(T),
    Hidden(T),
}

impl<T> GameSpan<T> {
    /// The class tag of this span.
    pub open spec fn class(&self) -> SpanClass {
        match self {
            GameSpan::Correct(_) => SpanClass::Correct,
            GameSpan::Wrong(_) => SpanClass::Wrong,
            GameSpan::Overflow(_) => SpanClass::Overflow,
            GameSpan::Skipped(_) => SpanClass::Skipped,
            GameSpan::Hidden(_) => SpanClass::Hidden,
        }
    }

    /// The payload carried by this span.
    pub open spec fn payload(&self) -> T {
        match self {
            GameSpan::Correct(v) => *v,
            GameSpan::Wrong(v) => *v,
            GameSpan::Overflow(v) => *v,
            GameSpan::Skipped(v) => *v,
            GameSpan::Hidden(v) => *v,
        }
    }

    /// The span of class `class` carrying `v`.
    pub open spec fn spec_new(class: SpanClass, v: T) -> GameSpan<T> {
        match class {
            SpanClass::Correct => GameSpan::Correct(v),
            SpanClass::Wrong => GameSpan::Wrong(v),
            SpanClass::Overflow => GameSpan::Overflow(v),
            SpanClass::Skipped => GameSpan::Skipped(v),
            SpanClass::Hidden => GameSpan::Hidden(v),
        }
    }

    /// Builds the span of class `class` carrying `v`.
    pub fn new(class: SpanClass, v: T) -> (r: GameSpan<T>)
        ensures
            r == Self::spec_new(class, v),
            r.class() == class,
            r.payload() == v,
    {
        match class {
            SpanClass::Correct => GameSpan::Correct(v),
            SpanClass::Wrong => GameSpan::Wrong(v),
            SpanClass::Overflow => GameSpan::Overflow(v),
            SpanClass::Skipped => GameSpan::Skipped(v),
            SpanClass::Hidden => GameSpan::Hidden(v),
        }
    }

    /// Returns the class tag of this span.
    pub fn get_class(&self) -> (r: SpanClass)
        ensures
            r == self.class(),
    {
        match self {
            GameSpan::Correct(_) => SpanClass::Correct,
            GameSpan::Wrong(_) => SpanClass::Wrong,
            GameSpan::Overflow(_) => SpanClass::Overflow,
            GameSpan::Skipped(_) => SpanClass::Skipped,
            GameSpan::Hidden(_) => SpanClass::Hidden,
        }
    }

    /// Returns a reference to the payload of this span.
    pub fn get_payload(&self) -> (r: &T)
        ensures
            *r == self.payload(),
    {
        match self {
            GameSpan::Correct(v) => v,
            GameSpan::Wrong(v) => v,
            GameSpan::Overflow(v) => v,
            GameSpan::Skipped(v) => v,
            GameSpan::Hidden(v) => v,
        }
    }

    /// Takes the payload out of this span.
    pub fn into_payload(self) -> (r: T)
        ensures
            r == self.payload(),
    {
        match self {
            GameSpan::Correct(v) => v,
            GameSpan::Wrong(v) => v,
            GameSpan::Overflow(v) => v,
            GameSpan::Skipped(v) => v,
            GameSpan::Hidden(v) => v,
        }
    }

    /// Applies `f` to the payload, keeping the class.
    pub fn map<T2, F: Fn(&T) -> T2>(&self, f: F) -> (r: GameSpan<T2>)
        requires
            f.requires((&self.payload(),)),
        ensures
            r.class() == self.class(),
            f.ensures((&self.payload(),), r.payload()),
    {
        match self {
            GameSpan::Correct(v) => GameSpan::Correct(f(v)),
            GameSpan::Wrong(v) => GameSpan::Wrong(f(v)),
            GameSpan::Overflow(v) => GameSpan::Overflow(f(v)),
            GameSpan::Skipped(v) => GameSpan::Skipped(f(v)),
            GameSpan::Hidden(v) => GameSpan::Hidden(f(v)),
        }
    }
}

} // verus!
