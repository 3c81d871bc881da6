use vstd::prelude::*;

verus! {

/// Arguments of the calculator tool.
#[derive(Clone, Debug)]
pub struct CalculatorArg {
    pub first_number: i32,
    pub second_number: i32,
    pub operator: String,
}

} // verus!
