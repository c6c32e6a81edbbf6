use vstd::prelude::*;

verus! {

/// The ways in which a matrix operation can refuse its input.
#[derive(Debug, Clone, Copy, PartialEq, Eq, Structural)]
pub enum MatrixError {
    /// The flat data handed to a constructor does not hold `rows * cols` elements.
    InvalidShape,
    /// A row or column index is not below the corresponding extent.
    OutOfBounds,
    /// Two operands, or a matrix and the row or column to append, do not fit together.
    ShapeMismatch,
}

impl MatrixError {
    /// A short, human-readable description of the error.
    pub fn message(&self) -> (text: &'static str)
        ensures
            text@.len() > 0,
            text@ == Self::message_of(*self),
    {
        match self {
            MatrixError::InvalidShape => {
                proof {
                    reveal_strlit("the length of the data must be equal to rows * cols");
                }
                "the length of the data must be equal to rows * cols"
            },
            MatrixError::OutOfBounds => {
                proof {
                    reveal_strlit("index out of bounds");
                }
                "index out of bounds"
            },
            MatrixError::ShapeMismatch => {
                proof {
                    reveal_strlit("the shapes of the operands do not fit together");
                }
                "the shapes of the operands do not fit together"
            },
        }
    }

    /// The text that [`MatrixError::message`] returns for each error.
    pub open spec fn message_of(e: MatrixError) -> Seq<char> {
        match e {
            MatrixError::InvalidShape => "the length of the data must be equal to rows * cols"@,
            MatrixError::OutOfBounds => "index out of bounds"@,
            MatrixError::ShapeMismatch => "the shapes of the operands do not fit together"@,
        }
    }
}

} // verus!
