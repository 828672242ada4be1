//! The composition primitive: a stage is a pure, fallible transform, and
//! stages chain sequentially, short-circuiting on the first failure.

use vstd::prelude::*;
use crate::util::result::GlinerError;

verus! {

/// A pure, fallible, single-input/single-output transform stage.
///
/// `post` is the stage's contract: every result `apply` hands back
/// satisfies it. A stage is side-effect-free besides allocation.
pub trait Composable<I, O> {
    /// The stage's contract: which results may come back on `input`.
    spec fn post(&self, input: I, r: Result<O, GlinerError>) -> bool;

    /// Runs the stage.
    fn apply(&self, input: I) -> (r: Result<O, GlinerError>)
        ensures
            self.post(input, r),
    ;
}

/// A stage that hands its input through unchanged: the stub stage for
/// exercising a pipeline without a numeric backend.
pub struct PassThrough {}

impl<X> Composable<X, X> for PassThrough {
    open spec fn post(&self, input: X, r: Result<X, GlinerError>) -> bool {
        r == Ok::<X, GlinerError>(input)
    }

    fn apply(&self, input: X) -> (r: Result<X, GlinerError>) {
        Ok(input)
    }
}

/// Sequential chain: runs `first`, then `second` on its output.
///
/// Short-circuits on the first failure, propagating its error unchanged;
/// `second` is never run when `first` fails.
pub fn apply_chain<I, M, O, A: Composable<I, M>, B: Composable<M, O>>(
    first: &A,
    second: &B,
    input: I,
) -> (r: Result<O, GlinerError>)
    ensures
        (match r {
            Ok(out) => exists|mid: M|
                #[trigger] first.post(input, Ok(mid)) && second.post(mid, Ok(out)),
            Err(e) => first.post(input, Err(e)) || exists|mid: M|
                #[trigger] first.post(input, Ok(mid)) && second.post(mid, Err(e)),
        }),
{
    match first.apply(input) {
        Ok(mid) => {
            let ghost gmid = mid;
            let r2 = second.apply(mid);
            proof {
                assert(first.post(input, Ok(gmid)));
            }
            r2
        },
        Err(e) => Err(e),
    }
}

} // verus!
