use vstd::prelude::*;

verus! {

/// A worked answer to a math question.
#[derive(Clone, Debug)]
pub struct MathSolution {
    pub final_answer: String,
    pub steps: Vec<Step>,
}

/// One step of a [`MathSolution`].
#[derive(Clone, Debug)]
pub struct Step {
    pub output: String,
    pub explanation: String,
}

} // verus!
