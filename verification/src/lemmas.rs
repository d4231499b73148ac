//! What holds of every fold.

use vstd::prelude::*;

use crate::fold::{
    computes, default_single_valued, fold_defined, folds_to, is_default, reduces_to,
    single_valued,
};

verus! {

/// One more step: a fold that has reached `before` goes on, over one more
/// element, to any result that `fnc` may return for `before` and that element.
pub proof fn lemma_fold_push<T, R, F: Fn(R, &T) -> R>(
    fnc: F,
    elements: Seq<T>,
    initial: R,
    before: R,
    next: T,
    result: R,
)
    requires
        folds_to(fnc, elements, initial, before),
        call_ensures(fnc, (before, &next), result),
    ensures
        folds_to(fnc, elements.push(next), initial, result),
{
    let longer = elements.push(next);
    assert(longer.drop_last() == elements);
    assert(longer.last() == next);
}

/// Induction along a fold: a property of the position and the accumulator that
/// holds at the start, and that each call of `fnc` carries from one position to
/// the next, holds of the final accumulator.
pub proof fn lemma_fold_invariant<T, R, F: Fn(R, &T) -> R>(
    fnc: F,
    elements: Seq<T>,
    initial: R,
    result: R,
    inv: spec_fn(int, R) -> bool,
)
    requires
        inv(0, initial),
        forall|k: int, acc: R, next: R|
            0 <= k < elements.len() && #[trigger] inv(k, acc) && #[trigger] call_ensures(
                fnc,
                (acc, &elements[k]),
                next,
            ) ==> inv(k + 1, next),
        folds_to(fnc, elements, initial, result),
    ensures
        inv(elements.len() as int, result),
    decreases elements.len(),
{
    if elements.len() > 0 {
        let shorter = elements.drop_last();
        let before = choose|before: R|
            folds_to(fnc, shorter, initial, before) && #[trigger] call_ensures(
                fnc,
                (before, &elements.last()),
                result,
            );
        lemma_fold_invariant(fnc, shorter, initial, before, inv);
    }
}

/// A combining function may be called at every step of a fold if some
/// property of the position and the accumulator holds at the start, is carried
/// by each call from one position to the next, and admits the call wherever it
/// holds.
pub proof fn lemma_fold_defined<T, R, F: Fn(R, &T) -> R>(
    fnc: F,
    elements: Seq<T>,
    initial: R,
    inv: spec_fn(int, R) -> bool,
)
    requires
        inv(0, initial),
        forall|k: int, acc: R, next: R|
            0 <= k < elements.len() && #[trigger] inv(k, acc) && #[trigger] call_ensures(
                fnc,
                (acc, &elements[k]),
                next,
            ) ==> inv(k + 1, next),
        forall|k: int, acc: R|
            0 <= k < elements.len() && #[trigger] inv(k, acc) ==> call_requires(
                fnc,
                (acc, &elements[k]),
            ),
    ensures
        fold_defined(fnc, elements, initial),
{
    assert forall|k: int, acc: R|
        0 <= k < elements.len() && #[trigger] folds_to(
            fnc,
            elements.take(k),
            initial,
            acc,
        ) implies call_requires(fnc, (acc, &elements[k])) by {
        let walked = elements.take(k);
        lemma_fold_invariant(fnc, walked, initial, acc, inv);
    }
}

/// Order of the fold: where the combining function computes `op`, folding
/// `[e1, e2, ..., en]` from `initial` gives
/// `op(op(...op(op(initial, e1), e2)..., e(n-1)), en)`.
pub proof fn lemma_fold_in_order<T, R, F: Fn(R, &T) -> R>(
    fnc: F,
    op: spec_fn(R, T) -> R,
    elements: Seq<T>,
    initial: R,
    result: R,
)
    requires
        computes(fnc, op),
        folds_to(fnc, elements, initial, result),
    ensures
        result == elements.fold_left(initial, op),
    decreases elements.len(),
{
    if elements.len() > 0 {
        let before = choose|before: R|
            folds_to(fnc, elements.drop_last(), initial, before) && #[trigger] call_ensures(
                fnc,
                (before, &elements.last()),
                result,
            );
        lemma_fold_in_order(fnc, op, elements.drop_last(), initial, before);
    }
}

/// Order of a reduction: where the combining function computes `op`, reducing
/// `[e1, e2, ..., en]` gives `op(op(...op(op(v, e1), e2)..., e(n-1)), en)`, with
/// `v` the starting accumulator that was given or, where none was, a default
/// value of the accumulator's type.
pub proof fn lemma_reduce_in_order<T, R: Default, F: Fn(R, &T) -> R>(
    fnc: F,
    op: spec_fn(R, T) -> R,
    elements: Seq<T>,
    initial: Option<R>,
    result: R,
)
    requires
        computes(fnc, op),
        reduces_to(fnc, elements, initial, result),
    ensures
        match initial {
            Some(first) => result == elements.fold_left(first, op),
            None => exists|first: R| #[trigger]
                is_default(first) && result == elements.fold_left(first, op),
        },
{
    match initial {
        Some(first) => {
            lemma_fold_in_order(fnc, op, elements, first, result);
        },
        None => {
            let first = choose|first: R| #[trigger]
                is_default(first) && folds_to(fnc, elements, first, result);
            lemma_fold_in_order(fnc, op, elements, first, result);
        },
    }
}

/// Two folds of the same elements from the same accumulator, with a combining
/// function whose contract fixes its result, end in the same value.
pub proof fn lemma_fold_deterministic<T, R, F: Fn(R, &T) -> R>(
    fnc: F,
    elements: Seq<T>,
    initial: R,
    r1: R,
    r2: R,
)
    requires
        single_valued(fnc),
        folds_to(fnc, elements, initial, r1),
        folds_to(fnc, elements, initial, r2),
    ensures
        r1 == r2,
    decreases elements.len(),
{
    if elements.len() > 0 {
        let b1 = choose|before: R|
            folds_to(fnc, elements.drop_last(), initial, before) && #[trigger] call_ensures(
                fnc,
                (before, &elements.last()),
                r1,
            );
        let b2 = choose|before: R|
            folds_to(fnc, elements.drop_last(), initial, before) && #[trigger] call_ensures(
                fnc,
                (before, &elements.last()),
                r2,
            );
        lemma_fold_deterministic(fnc, elements.drop_last(), initial, b1, b2);
    }
}

/// Two reductions of the same elements with the same optional starting
/// accumulator end in the same value, where the contract of the combining
/// function fixes its result and, if no starting accumulator is given, the
/// type has one default value.
pub proof fn lemma_reduce_deterministic<T, R: Default, F: Fn(R, &T) -> R>(
    fnc: F,
    elements: Seq<T>,
    initial: Option<R>,
    r1: R,
    r2: R,
)
    requires
        single_valued(fnc),
        initial is None ==> default_single_valued::<R>(),
        reduces_to(fnc, elements, initial, r1),
        reduces_to(fnc, elements, initial, r2),
    ensures
        r1 == r2,
{
    match initial {
        Some(first) => {
            lemma_fold_deterministic(fnc, elements, first, r1, r2);
        },
        None => {
            let d1 = choose|first: R| #[trigger]
                is_default(first) && folds_to(fnc, elements, first, r1);
            let d2 = choose|first: R| #[trigger]
                is_default(first) && folds_to(fnc, elements, first, r2);
            lemma_fold_deterministic(fnc, elements, d1, r1, r2);
        },
    }
}

/// Leaving the starting accumulator out is the same as giving a default value
/// of the accumulator's type.
pub proof fn lemma_default_fallback<T, R: Default, F: Fn(R, &T) -> R>(
    fnc: F,
    elements: Seq<T>,
    result: R,
)
    ensures
        reduces_to(fnc, elements, None, result) <==> exists|first: R| #[trigger]
            is_default(first) && reduces_to(fnc, elements, Some(first), result),
{
}

} // verus!
