//! The arithmetic built-in: which operations there are, how many operands
//! each takes, and what is checked before anything is computed. All nine
//! operations are carried out.

use crate::pipelines::DispatchError;
use vstd::prelude::*;

verus! {

/// The operations that a math node can name.
#[derive(Debug, Clone, Copy, PartialEq, Eq, Structural)]
pub enum OperationKind {
    Sum,
    Subtract,
    Multiply,
    Divide,
    Abs,
    SquareRoot,
    Sin,
    Floor,
    Ceil,
}

impl OperationKind {
    /// The operation takes two operands; the others take one.
    pub open spec fn spec_is_binary(self) -> bool {
        self == OperationKind::Sum || self == OperationKind::Subtract || self
            == OperationKind::Multiply || self == OperationKind::Divide
    }

    /// Whether the operation takes two operands.
    pub fn is_binary(&self) -> (binary: bool)
        ensures
            binary == self.spec_is_binary(),
    {
        matches!(
            self,
            OperationKind::Sum | OperationKind::Subtract | OperationKind::Multiply
                | OperationKind::Divide
        )
    }
}

/// What stands in the way of computing the operation, if anything: an
/// operand that it takes cannot be read as a number. Every one of the nine
/// operations is carried out.
pub open spec fn math_obstacle(
    kind: OperationKind,
    first_readable: bool,
    second_readable: bool,
) -> Option<Seq<char>> {
    if !first_readable || (kind.spec_is_binary() && !second_readable) {
        Some("Value is not a valid number"@)
    } else {
        None
    }
}

/// Checks a math operation before it is computed. `first_readable` and
/// `second_readable` say whether each operand can be read as a number; the
/// second is of no account for an operation with one operand. What the
/// numbers are is of no account either: a division by zero passes the
/// check like any other, and its result is whatever the arithmetic gives.
pub fn check_math_op(kind: OperationKind, first_readable: bool, second_readable: bool) -> (checked:
    Result<(), DispatchError>)
    ensures
        math_obstacle(kind, first_readable, second_readable).is_none() <==> checked.is_ok(),
        checked matches Err(error) ==> (error matches DispatchError::HandlerFailure(text)
            && math_obstacle(kind, first_readable, second_readable) == Some(text@)),
{
    if !first_readable || (kind.is_binary() && !second_readable) {
        Err(DispatchError::HandlerFailure("Value is not a valid number".to_owned()))
    } else {
        Ok(())
    }
}

} // verus!
