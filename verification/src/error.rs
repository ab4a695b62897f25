//! The ways in which a description can fail to compile.

use vstd::prelude::*;
use vstd::string::StringExecFns;

verus! {

/// Why no bindings were produced. Each one stops the compilation as a whole:
/// there are no bindings for a part of a description.
#[derive(Debug, Clone, PartialEq, Eq)]
pub enum SchemaError {
    /// The description gives no program address.
    MissingAddress,
    /// The address text decodes to no 32-byte key.
    InvalidAddress,
    /// An argument's declared type, by its name, is none of the supported ones.
    UnsupportedType(String),
    /// The document is not an interface description.
    MalformedSchema,
}

/// A [`SchemaError`] with its text as a sequence of characters.
pub enum SchemaFault {
    MissingAddress,
    InvalidAddress,
    UnsupportedType(Seq<char>),
    MalformedSchema,
}

impl View for SchemaError {
    type V = SchemaFault;

    open spec fn view(&self) -> SchemaFault {
        match self {
            SchemaError::MissingAddress => SchemaFault::MissingAddress,
            SchemaError::InvalidAddress => SchemaFault::InvalidAddress,
            SchemaError::UnsupportedType(name) => SchemaFault::UnsupportedType(name@),
            SchemaError::MalformedSchema => SchemaFault::MalformedSchema,
        }
    }
}

impl SchemaFault {
    /// The sentence that reports the fault.
    pub open spec fn message(self) -> Seq<char> {
        match self {
            SchemaFault::MissingAddress =>
                "Please make sure to define the program address in the metadata: address field."@,
            SchemaFault::InvalidAddress => "Invalid program address"@,
            SchemaFault::UnsupportedType(name) =>
                "Type \""@ + name + "\" not implemented yet"@,
            SchemaFault::MalformedSchema => "Malformed interface description"@,
        }
    }
}

impl SchemaError {
    /// The sentence that reports the error.
    pub fn message(&self) -> (text: String)
        ensures
            text@ == self@.message(),
    {
        match self {
            SchemaError::MissingAddress => String::from_str(
                "Please make sure to define the program address in the metadata: address field.",
            ),
            SchemaError::InvalidAddress => String::from_str("Invalid program address"),
            SchemaError::UnsupportedType(name) => String::from_str("Type \"").concat(
                name.as_str(),
            ).concat("\" not implemented yet"),
            SchemaError::MalformedSchema => String::from_str("Malformed interface description"),
        }
    }
}

} // verus!
