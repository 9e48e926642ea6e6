use vstd::prelude::*;

verus! {

/// std's `ParseIntError`, carried as it is inside `RobotError`.
#[verifier::external_type_specification]
#[verifier::external_body]
pub struct ExParseIntError(std::num::ParseIntError);

/// Everything that can go wrong while parsing or running commands.
#[derive(Debug)]
pub enum RobotError {
    /// A command that needs a robot came while none is placed.
    RobotNotInField,
    /// The robot would be put or moved outside the field.
    RobotOutOfField,
    /// A line matches none of the command forms.
    ParseActionError { action: String },
    /// A coordinate of a placement does not fit the coordinate type.
    ParseActionIntError { error: std::num::ParseIntError },
    /// A heading is not one of the four canonical names.
    ParseDirectionError { direction: String },
}

impl std::convert::From<std::num::ParseIntError> for RobotError {
    fn from(error: std::num::ParseIntError) -> (r: RobotError)
        ensures
            r == (RobotError::ParseActionIntError { error }),
    {
        RobotError::ParseActionIntError { error }
    }
}

impl vstd::std_specs::convert::FromSpecImpl<std::num::ParseIntError> for RobotError {
    open spec fn obeys_from_spec() -> bool {
        true
    }

    open spec fn from_spec(error: std::num::ParseIntError) -> RobotError {
        RobotError::ParseActionIntError { error }
    }
}

} // verus!
