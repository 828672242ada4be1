//! Pre-processing, the tensor boundary, and the inference facade.

pub mod input;
pub mod tensor;

use vstd::prelude::*;
use crate::util::compose::Composable;
use crate::util::result::GlinerError;

verus! {

/// The inference facade: binds a pre-processor, an inference stage and a
/// post-processor into one entry point.
///
/// Each piece is a `Composable` stage; the facade produces exactly what
/// running the three stages by hand in order would.
pub struct GLiNER<A, B, C> {
    /// Turns raw input into the model's tensors.
    pub pre_processor: A,
    /// The (opaque) numeric inference stage.
    pub model: B,
    /// Decodes the model's output tensors.
    pub post_processor: C,
}

impl<A, B, C> GLiNER<A, B, C> {
    /// Runs pre-process, inference, post-process in that order, on the
    /// caller's thread, synchronously, short-circuiting on the first
    /// failure and propagating its error unchanged.
    pub fn inference<I, M1, M2, O>(&self, input: I) -> (r: Result<O, GlinerError>) where
        A: Composable<I, M1>,
        B: Composable<M1, M2>,
        C: Composable<M2, O>,

        ensures
            (match r {
                Ok(out) => exists|m1: M1, m2: M2|
                    #![trigger self.pre_processor.post(input, Ok(m1)), self.model.post(m1, Ok(m2))]
                    self.pre_processor.post(input, Ok(m1)) && self.model.post(m1, Ok(m2))
                        && self.post_processor.post(m2, Ok(out)),
                Err(e) => self.pre_processor.post(input, Err(e)) || (exists|m1: M1|
                    #[trigger] self.pre_processor.post(input, Ok(m1)) && self.model.post(
                        m1,
                        Err(e),
                    )) || (exists|m1: M1, m2: M2|
                    #![trigger self.pre_processor.post(input, Ok(m1)), self.model.post(m1, Ok(m2))]
                    self.pre_processor.post(input, Ok(m1)) && self.model.post(m1, Ok(m2))
                        && self.post_processor.post(m2, Err(e))),
            }),
    {
        let mid1 = match self.pre_processor.apply(input) {
            Ok(v) => v,
            Err(e) => {
                return Err(e);
            },
        };
        let ghost gm1 = mid1;
        let mid2 = match self.model.apply(mid1) {
            Ok(v) => v,
            Err(e) => {
                proof {
                    assert(self.pre_processor.post(input, Ok(gm1)));
                }
                return Err(e);
            },
        };
        let ghost gm2 = mid2;
        let out = self.post_processor.apply(mid2);
        proof {
            assert(self.pre_processor.post(input, Ok(gm1)));
            assert(self.model.post(gm1, Ok(gm2)));
        }
        out
    }
}

} // verus!
