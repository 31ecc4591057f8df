use vstd::prelude::*;

verus! {

/// Why a description cannot be turned into source text.
#[derive(Clone, Copy, Debug, PartialEq, Eq, Structural)]
pub enum GenError {
    /// A type name carries the array marker while its array flag is unset.
    ArrayMismatch,
    /// A declared parameter has no name.
    MissingParameterName,
    /// A name that has to become an identifier is not one.
    InvalidIdentifier,
    /// A class name that does not read as a sequence of tokens.
    InvalidType,
    /// An interface name that does not read as a path.
    InvalidPath,
    /// A dotted name that leaves nothing to name a file by.
    EmptyName,
}

/// What is told of an error.
pub open spec fn error_message(e: GenError) -> Seq<char> {
    match e {
        GenError::ArrayMismatch => "a type name carries an array marker, but its array flag is not set"@,
        GenError::MissingParameterName => "a declared parameter has no name"@,
        GenError::InvalidIdentifier => "a name cannot be written as an identifier"@,
        GenError::InvalidType => "a class name does not read as a type"@,
        GenError::InvalidPath => "an interface name does not read as a path"@,
        GenError::EmptyName => "a dotted name has no piece to name a file by"@,
    }
}

impl GenError {
    /// Tells in words what went wrong.
    pub fn message(&self) -> (r: String)
        ensures
            r@ == error_message(*self),
    {
        match self {
            GenError::ArrayMismatch => "a type name carries an array marker, but its array flag is not set".to_owned(),
            GenError::MissingParameterName => "a declared parameter has no name".to_owned(),
            GenError::InvalidIdentifier => "a name cannot be written as an identifier".to_owned(),
            GenError::InvalidType => "a class name does not read as a type".to_owned(),
            GenError::InvalidPath => "an interface name does not read as a path".to_owned(),
            GenError::EmptyName => "a dotted name has no piece to name a file by".to_owned(),
        }
    }
}

} // verus!
