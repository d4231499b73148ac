//! The mathematical model of a fold.
//!
//! A combining function is an executable value, and all that is known of it is
//! its contract: `call_requires` says on which arguments it may be called, and
//! `call_ensures` relates arguments to the results it may return. A fold is
//! therefore modelled as a relation between a sequence of elements, a starting
//! accumulator and a final accumulator.

use vstd::prelude::*;

verus! {

/// Whether `value` is a default value of `R`: one that `R::default()` may return.
pub open spec fn is_default<R: Default>(value: R) -> bool {
    call_ensures(R::default, (), value)
}

/// Whether `value` is what an optional starting accumulator stands for: the
/// value it holds, or, where it holds none, a default value of `R`.
pub open spec fn resolves_to<R: Default>(initial: Option<R>, value: R) -> bool {
    match initial {
        Some(given) => value == given,
        None => is_default(value),
    }
}

/// Whether folding `elements` from left to right with `fnc`, starting from
/// `initial`, may end in `result`.
///
/// The empty sequence leaves the accumulator as it is. A longer sequence folds
/// all but its last element into some accumulator, and one call of `fnc` on
/// that accumulator and the last element gives `result`.
pub open spec fn folds_to<T, R, F: Fn(R, &T) -> R>(
    fnc: F,
    elements: Seq<T>,
    initial: R,
    result: R,
) -> bool
    decreases elements.len(),
{
    if elements.len() == 0 {
        result == initial
    } else {
        exists|before: R|
            folds_to(fnc, elements.drop_last(), initial, before) && #[trigger] call_ensures(
                fnc,
                (before, &elements.last()),
                result,
            )
    }
}

/// Whether `fnc` may be called at every step of a fold over `elements` that
/// starts from `initial`: on each element, together with every accumulator
/// that the elements before it can fold to.
pub open spec fn fold_defined<T, R, F: Fn(R, &T) -> R>(
    fnc: F,
    elements: Seq<T>,
    initial: R,
) -> bool {
    forall|k: int, acc: R|
        0 <= k < elements.len() && #[trigger] folds_to(fnc, elements.take(k), initial, acc)
            ==> call_requires(fnc, (acc, &elements[k]))
}

/// Whether `fnc` may be called at every step of a fold over `elements`,
/// whichever value the optional starting accumulator resolves to.
pub open spec fn reduce_defined<T, R: Default, F: Fn(R, &T) -> R>(
    fnc: F,
    elements: Seq<T>,
    initial: Option<R>,
) -> bool {
    forall|first: R| #[trigger]
        resolves_to(initial, first) ==> fold_defined(fnc, elements, first)
}

/// Whether folding `elements` with `fnc` may end in `result`, when the fold
/// starts from the value given in `initial` or, where none is given, from a
/// default value of `R`.
pub open spec fn reduces_to<T, R: Default, F: Fn(R, &T) -> R>(
    fnc: F,
    elements: Seq<T>,
    initial: Option<R>,
    result: R,
) -> bool {
    match initial {
        Some(first) => folds_to(fnc, elements, first, result),
        None => exists|first: R| #[trigger]
            is_default(first) && folds_to(fnc, elements, first, result),
    }
}

/// Whether the contract of `fnc` leaves at most one result for each pair of
/// arguments.
pub open spec fn single_valued<T, R, F: Fn(R, &T) -> R>(fnc: F) -> bool {
    forall|acc: R, cur: T, r1: R, r2: R|
        #[trigger] call_ensures(fnc, (acc, &cur), r1) && #[trigger] call_ensures(
            fnc,
            (acc, &cur),
            r2,
        ) ==> r1 == r2
}

/// Whether every result that the contract of `fnc` allows is the one that the
/// mathematical function `op` gives.
pub open spec fn computes<T, R, F: Fn(R, &T) -> R>(fnc: F, op: spec_fn(R, T) -> R) -> bool {
    forall|acc: R, cur: T, next: R| #[trigger]
        call_ensures(fnc, (acc, &cur), next) ==> next == op(acc, cur)
}

/// Whether `R` has at most one default value.
pub open spec fn default_single_valued<R: Default>() -> bool {
    forall|d1: R, d2: R| #[trigger] is_default(d1) && #[trigger] is_default(d2) ==> d1 == d2
}

} // verus!
