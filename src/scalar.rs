use vstd::prelude::*;
use crate::activations::Activation;

verus! {

/// The scalar operations that the network's passes are written in. The
/// caller supplies them as one function `f(op, a, b)`; unary operations read
/// their first operand.
#[derive(Clone, Copy, Debug, PartialEq, Eq, Structural)]
pub enum ScalarOp {
    /// `a + b`.
    Add,
    /// `a - b`.
    Subtract,
    /// `a * b`.
    Multiply,
    /// The activation of the pre-activation value `a`.
    Activate(Activation),
    /// The activation's derivative, given the already-activated value `a`.
    Derivative(Activation),
}

/// `f` accepts every operation on every operands.
pub open spec fn total<T, F: Fn(ScalarOp, T, T) -> T>(f: F) -> bool {
    forall|op: ScalarOp, a: T, b: T| #[trigger] f.requires((op, a, b))
}

/// `f` gives one result for each operation and operands.
pub open spec fn deterministic<T, F: Fn(ScalarOp, T, T) -> T>(f: F) -> bool {
    forall|op: ScalarOp, a: T, b: T, r1: T, r2: T|
        #![trigger f.ensures((op, a, b), r1), f.ensures((op, a, b), r2)]
        f.ensures((op, a, b), r1) && f.ensures((op, a, b), r2) ==> r1 == r2
}

/// The result that `f` gives for `op` on `a` and `b`.
pub open spec fn outcome<T, F: Fn(ScalarOp, T, T) -> T>(f: F, op: ScalarOp, a: T, b: T) -> T {
    choose|r: T| f.ensures((op, a, b), r)
}

/// Applies `op` to `a` and `b` through `f`.
pub fn run<T, F: Fn(ScalarOp, T, T) -> T>(f: &F, op: ScalarOp, a: T, b: T) -> (r: T)
    requires
        total(*f),
    ensures
        deterministic(*f) ==> r == outcome(*f, op, a, b),
{
    let r = f(op, a, b);
    assert(f.ensures((op, a, b), r));
    r
}

} // verus!
