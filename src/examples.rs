use vstd::prelude::*;

verus! {

/// The names of the bundled logic-gate training examples.
pub fn list_examples() -> (r: Vec<&'static str>)
    ensures
        r@.len() == 3,
        r@[0]@ == "and"@,
        r@[1]@ == "or"@,
        r@[2]@ == "xor"@,
{
    vec!["and", "or", "xor"]
}

} // verus!
