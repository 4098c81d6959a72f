//! What a conversion step comes to: a value, a message that rejects the
//! input, or an input on which the step would abort the program.

use vstd::prelude::*;

verus! {

/// The outcome of a step, over mathematical values.
pub enum Outcome<V> {
    Value(V),
    Error(Seq<char>),
    Panic,
}

/// Whether the executable result `r` is the outcome `o` (which is not `Panic`).
pub open spec fn result_is<T, V>(r: Result<T, String>, o: Outcome<V>, view: spec_fn(T) -> V) -> bool {
    match o {
        Outcome::Value(v) => r matches Ok(x) && view(x) == v,
        Outcome::Error(m) => r matches Err(e) && e@ == m,
        Outcome::Panic => false,
    }
}

/// The outcome of a step, over executable values.
pub enum Step<T> {
    Value(T),
    Error(String),
    Panic,
}

/// Whether the executable outcome `s` is the outcome `o`, values compared by `view`.
pub open spec fn step_is<T, V>(s: Step<T>, o: Outcome<V>, view: spec_fn(T) -> V) -> bool {
    match o {
        Outcome::Value(v) => s matches Step::Value(x) && view(x) == v,
        Outcome::Error(m) => s matches Step::Error(e) && e@ == m,
        Outcome::Panic => s is Panic,
    }
}

} // verus!
