//! The classifier decision: whether any detection reported by an inference
//! backend clears both the target-category filter and the confidence
//! threshold. The backend itself runs outside the library and hands over its
//! raw outputs as plain values; confidences are fixed-point integers, scaled
//! by the caller's chosen factor.

use vstd::prelude::*;

verus! {

/// Why a classification request produced no verdict.
#[derive(Debug, Clone, Copy, PartialEq, Eq, Structural)]
pub enum ClassificationError {
    /// The backend failed to run the model.
    Backend,
    /// The backend's class and score outputs disagree in shape.
    ShapeMismatch,
}

/// The category filter and confidence threshold a detection must clear.
#[derive(Debug, Clone, PartialEq, Eq)]
pub struct Detector {
    /// The set of category identifiers to match on.
    pub match_set: Vec<u32>,
    /// The confidence a detection must exceed, in the same fixed-point
    /// scale as the scores handed to [`Detector::detect`].
    pub threshold: u32,
}

impl Detector {
    /// Whether some reported detection is of a tracked category and clears
    /// the confidence threshold.
    pub open spec fn spec_detected(self, classes: Seq<u32>, scores: Seq<u32>) -> bool {
        exists|i: int|
            0 <= i < classes.len() && self.match_set@.contains(classes[i]) && scores[i]
                > self.threshold
    }

    /// Creates a detector over the given category set and threshold.
    pub fn new(match_set: Vec<u32>, threshold: u32) -> (r: Detector)
        ensures
            r == (Detector { match_set, threshold }),
    {
        Detector { match_set, threshold }
    }

    /// The classifier verdict over one frame's backend outputs: `classes`
    /// and `scores` pair up index by index. Returns `Ok(true)` exactly when
    /// at least one detection is of a tracked category with a score above
    /// the threshold; a single qualifying detection suffices. Fails exactly
    /// when the two outputs disagree in length.
    pub fn detect(&self, classes: &Vec<u32>, scores: &Vec<u32>) -> (r: Result<
        bool,
        ClassificationError,
    >)
        ensures
            r is Ok <==> classes@.len() == scores@.len(),
            r matches Ok(b) ==> b == self.spec_detected(classes@, scores@),
            r is Err ==> r == Result::<bool, ClassificationError>::Err(
                ClassificationError::ShapeMismatch,
            ),
    {
        if classes.len() != scores.len() {
            return Err(ClassificationError::ShapeMismatch);
        }
        let mut i: usize = 0;
        while i < classes.len()
            invariant
                i <= classes@.len(),
                classes@.len() == scores@.len(),
                forall|j: int|
                    0 <= j < i ==> !(self.match_set@.contains(#[trigger] classes@[j])
                        && scores@[j] > self.threshold),
            decreases classes@.len() - i,
        {
            if contains_u32(&self.match_set, classes[i]) && scores[i] > self.threshold {
                return Ok(true);
            }
            i = i + 1;
        }
        Ok(false)
    }
}

/// Whether `v` holds `x`.
fn contains_u32(v: &Vec<u32>, x: u32) -> (r: bool)
    ensures
        r == v@.contains(x),
{
    let mut i: usize = 0;
    while i < v.len()
        invariant
            i <= v@.len(),
            forall|j: int| 0 <= j < i ==> v@[j] != x,
        decreases v@.len() - i,
    {
        if v[i] == x {
            return true;
        }
        i = i + 1;
    }
    assert(!v@.contains(x));
    false
}

} // verus!
