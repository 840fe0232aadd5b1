use vstd::prelude::*;

verus! {

/// One labeled example: an input vector and the output vector the network is
/// expected to produce for it. Examples are built once by the caller (for
/// instance from a dataset loaded outside this crate) and never mutated.
pub struct Datapoint<S> {
    /// Values fed to the network's input layer.
    pub inputs: Vec<S>,

    /// Values the output layer is expected to produce.
    pub expected: Vec<S>,
}

impl<S> Datapoint<S> {
    /// Read-only view of the input vector.
    pub fn inputs(&self) -> (r: &Vec<S>)
        ensures
            r@ == self.inputs@,
    {
        &self.inputs
    }

    /// Read-only view of the expected-output vector.
    pub fn expected(&self) -> (r: &Vec<S>)
        ensures
            r@ == self.expected@,
    {
        &self.expected
    }
}

/// The eight bits of `value`, most significant first: the result at position
/// `i` is bit `7 - i` of `value`. A dataset loader uses this to expand a class
/// label byte into a vector of zeros and ones.
pub fn to_byte_array_u8(value: u8) -> (r: [u8; 8])
    ensures
        forall|i: int| 0 <= i < 8 ==> r@[i] == (value >> ((7 - i) as u8)) & 1,
{
    let mut array: [u8; 8] = [0; 8];
    let mut i: usize = 0;
    while i < 8
        invariant
            i <= 8,
            forall|k: int| 8 - i <= k < 8 ==> array@[k] == (value >> ((7 - k) as u8)) & 1,
        decreases 8 - i,
    {
        array[7 - i] = (value >> (i as u8)) & 1;
        i += 1;
    }
    array
}

} // verus!
