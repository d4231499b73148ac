//! Folding the elements of a container into a single accumulated value.
//!
//! A container adopts [`Reducable`] by saying what its elements are and how to
//! fold them from a given starting accumulator; [`Reducable::reduce`] then
//! comes with it, and lets the caller leave the starting accumulator out.

use vstd::prelude::*;

pub mod fold;
pub mod lemmas;

use crate::fold::{fold_defined, folds_to, reduce_defined, reduces_to, resolves_to};
use crate::lemmas::lemma_fold_push;

verus! {

/// A container whose elements can be folded into one value.
pub trait Reducable<T> {
    /// The elements of the container, in the order in which it is walked.
    ///
    /// An adopting type says here what it holds. Left as it is, the sequence
    /// is unspecified, and nothing can be proved of a fold over it.
    open spec fn elements(&self) -> Seq<T> {
        arbitrary()
    }

    /// Folds the elements with `fnc`, starting from `initial` or, where it is
    /// `None`, from the default value of `R`.
    ///
    /// The container is taken by shared reference and is left as it was.
    fn reduce<R, F>(&self, fnc: F, initial: Option<R>) -> (result: R) where
        R: Default,
        F: Fn(R, &T) -> R,

        requires
            reduce_defined(fnc, self.elements(), initial),
        ensures
            reduces_to(fnc, self.elements(), initial, result),
            self.elements().len() == 0 ==> resolves_to(initial, result),
    {
        let unpacked_initial: R = get_initial(initial);
        self.reduce_function(fnc, unpacked_initial)
    }

    /// Folds the elements with `fnc`, in the container's order, starting from
    /// `initial_value`.
    fn reduce_function<R, F>(&self, fnc: F, initial_value: R) -> (result: R) where
        F: Fn(R, &T) -> R,

        requires
            fold_defined(fnc, self.elements(), initial_value),
        ensures
            folds_to(fnc, self.elements(), initial_value, result),
            self.elements().len() == 0 ==> result == initial_value,
    ;
}

/// Resolves an optional starting accumulator: the value given, or the
/// type's default where none is given.
pub fn get_initial<R>(initial: Option<R>) -> (value: R) where R: Default
    ensures
        resolves_to(initial, value),
{
    match initial {
        Some(x) => x,
        None => Default::default(),
    }
}

impl<T> Reducable<T> for Vec<T> {
    open spec fn elements(&self) -> Seq<T> {
        self@
    }

    /// Folds the vector from its first element to its last.
    fn reduce_function<R, F>(&self, fnc: F, initial_value: R) -> (result: R) where
        F: Fn(R, &T) -> R,
    {
        let ghost start = initial_value;
        let mut return_value = initial_value;
        let mut i: usize = 0;
        while i < self.len()
            invariant
                i <= self.len(),
                fold_defined(fnc, self@, start),
                folds_to(fnc, self@.take(i as int), start, return_value),
            decreases self.len() - i,
        {
            let ghost before = return_value;
            return_value = fnc(return_value, &self[i]);
            proof {
                let walked = self@.take(i as int);
                lemma_fold_push(fnc, walked, start, before, self@[i as int], return_value);
                assert(walked.push(self@[i as int]) == self@.take(i + 1));
            }
            i += 1;
        }
        assert(self@.take(i as int) == self@);
        return_value
    }
}

} // verus!
