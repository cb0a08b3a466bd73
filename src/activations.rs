use vstd::prelude::*;
use crate::text::same_text;

verus! {

/// The activation functions a network can apply after each layer.
///
/// Each variant's derivative is expressed in terms of the already-activated
/// value, which is what the backward pass hands it.
#[derive(Clone, Copy, Debug, PartialEq, Eq, Structural)]
pub enum Activation {
    /// The logistic function `1 / (1 + e^-x)`, with derivative `a * (1 - a)`.
    Sigmoid,
}

/// The logistic activation.
pub const SIGMOID: Activation = Activation::Sigmoid;

/// An activation name that no variant carries.
#[derive(Clone, Debug, PartialEq, Eq)]
pub struct UnknownActivation {
    pub name: String,
}

/// The name under which an activation is persisted.
pub open spec fn activation_name(a: Activation) -> Seq<char> {
    match a {
        Activation::Sigmoid => "sigmoid"@,
    }
}

impl Activation {
    /// The persisted name of this activation.
    pub fn name(&self) -> (r: &'static str)
        ensures
            r@ == activation_name(*self),
    {
        match self {
            Activation::Sigmoid => "sigmoid",
        }
    }

    /// The activation persisted under `name`, if any.
    pub fn from_name(name: &str) -> (r: Result<Activation, UnknownActivation>)
        ensures
            r is Ok <==> name@ == activation_name(Activation::Sigmoid),
            r matches Ok(a) ==> activation_name(a) == name@,
            r matches Err(e) ==> e.name@ == name@,
    {
        if same_text(name, "sigmoid") {
            Ok(Activation::Sigmoid)
        } else {
            Err(UnknownActivation { name: name.to_owned() })
        }
    }
}

} // verus!
