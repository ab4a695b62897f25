//! The closed table of argument types: the names a description may declare,
//! and the value type that each one stands for in the bindings.

use vstd::prelude::*;
use vstd::string::StringExecFns;
use crate::error::{SchemaError, SchemaFault};

verus! {

/// The supported argument types.
#[derive(Debug, Clone, Copy, PartialEq, Eq, Structural)]
pub enum ArgType {
    /// A byte sequence of any length.
    Bytes,
    /// A UTF-8 string.
    String,
    /// A 32-byte public key.
    PublicKey,
    Bool,
    U8,
    I8,
    U16,
    I16,
    U32,
    I32,
    F32,
    U64,
    I64,
    F64,
    U128,
    I128,
    U256,
    I256,
}

/// The type that a declared name stands for; `None` outside the table.
pub open spec fn arg_type_named(name: Seq<char>) -> Option<ArgType> {
    if name == "bytes"@ {
        Some(ArgType::Bytes)
    } else if name == "string"@ {
        Some(ArgType::String)
    } else if name == "publicKey"@ {
        Some(ArgType::PublicKey)
    } else if name == "bool"@ {
        Some(ArgType::Bool)
    } else if name == "u8"@ {
        Some(ArgType::U8)
    } else if name == "i8"@ {
        Some(ArgType::I8)
    } else if name == "u16"@ {
        Some(ArgType::U16)
    } else if name == "i16"@ {
        Some(ArgType::I16)
    } else if name == "u32"@ {
        Some(ArgType::U32)
    } else if name == "i32"@ {
        Some(ArgType::I32)
    } else if name == "f32"@ {
        Some(ArgType::F32)
    } else if name == "u64"@ {
        Some(ArgType::U64)
    } else if name == "i64"@ {
        Some(ArgType::I64)
    } else if name == "f64"@ {
        Some(ArgType::F64)
    } else if name == "u128"@ {
        Some(ArgType::U128)
    } else if name == "i128"@ {
        Some(ArgType::I128)
    } else if name == "u256"@ {
        Some(ArgType::U256)
    } else if name == "i256"@ {
        Some(ArgType::I256)
    } else {
        None
    }
}

/// What looking a declared name up in the table gives: its type, or the error
/// that names it.
pub open spec fn mapped_type(name: Seq<char>) -> Result<ArgType, SchemaFault> {
    match arg_type_named(name) {
        Some(arg_type) => Ok(arg_type),
        None => Err(SchemaFault::UnsupportedType(name)),
    }
}

/// Whether two strings hold the same text.
fn same_text(a: &str, b: &str) -> (same: bool)
    ensures
        same == (a@ == b@),
{
    a.to_owned() == b.to_owned()
}

impl ArgType {
    /// The value type as the bindings write it.
    pub open spec fn type_text(self) -> Seq<char> {
        match self {
            ArgType::Bytes => "Vec<u8>"@,
            ArgType::String => "String"@,
            ArgType::PublicKey => "Pubkey"@,
            ArgType::Bool => "bool"@,
            ArgType::U8 => "u8"@,
            ArgType::I8 => "i8"@,
            ArgType::U16 => "u16"@,
            ArgType::I16 => "i16"@,
            ArgType::U32 => "u32"@,
            ArgType::I32 => "i32"@,
            ArgType::F32 => "f32"@,
            ArgType::U64 => "u64"@,
            ArgType::I64 => "i64"@,
            ArgType::F64 => "f64"@,
            ArgType::U128 => "u128"@,
            ArgType::I128 => "i128"@,
            ArgType::U256 => "u256"@,
            ArgType::I256 => "i256"@,
        }
    }

    /// The value type as the bindings write it: a byte vector, a string, a
    /// public key, or the primitive of the declared name.
    pub fn rust_type(&self) -> (text: &'static str)
        ensures
            text@ == self.type_text(),
    {
        match self {
            ArgType::Bytes => "Vec<u8>",
            ArgType::String => "String",
            ArgType::PublicKey => "Pubkey",
            ArgType::Bool => "bool",
            ArgType::U8 => "u8",
            ArgType::I8 => "i8",
            ArgType::U16 => "u16",
            ArgType::I16 => "i16",
            ArgType::U32 => "u32",
            ArgType::I32 => "i32",
            ArgType::F32 => "f32",
            ArgType::U64 => "u64",
            ArgType::I64 => "i64",
            ArgType::F64 => "f64",
            ArgType::U128 => "u128",
            ArgType::I128 => "i128",
            ArgType::U256 => "u256",
            ArgType::I256 => "i256",
        }
    }
}

/// Looks a declared type name up in the table. A name outside it is an error
/// that carries the name; nothing is coerced.
pub fn map_arg_type(name: &str) -> (mapped: Result<ArgType, SchemaError>)
    ensures
        match mapped {
            Ok(arg_type) => mapped_type(name@) == Ok::<ArgType, SchemaFault>(arg_type),
            Err(error) => mapped_type(name@) == Err::<ArgType, SchemaFault>(error@),
        },
{
    if same_text(name, "bytes") {
        Ok(ArgType::Bytes)
    } else if same_text(name, "string") {
        Ok(ArgType::String)
    } else if same_text(name, "publicKey") {
        Ok(ArgType::PublicKey)
    } else if same_text(name, "bool") {
        Ok(ArgType::Bool)
    } else if same_text(name, "u8") {
        Ok(ArgType::U8)
    } else if same_text(name, "i8") {
        Ok(ArgType::I8)
    } else if same_text(name, "u16") {
        Ok(ArgType::U16)
    } else if same_text(name, "i16") {
        Ok(ArgType::I16)
    } else if same_text(name, "u32") {
        Ok(ArgType::U32)
    } else if same_text(name, "i32") {
        Ok(ArgType::I32)
    } else if same_text(name, "f32") {
        Ok(ArgType::F32)
    } else if same_text(name, "u64") {
        Ok(ArgType::U64)
    } else if same_text(name, "i64") {
        Ok(ArgType::I64)
    } else if same_text(name, "f64") {
        Ok(ArgType::F64)
    } else if same_text(name, "u128") {
        Ok(ArgType::U128)
    } else if same_text(name, "i128") {
        Ok(ArgType::I128)
    } else if same_text(name, "u256") {
        Ok(ArgType::U256)
    } else if same_text(name, "i256") {
        Ok(ArgType::I256)
    } else {
        Err(SchemaError::UnsupportedType(String::from_str(name)))
    }
}

} // verus!
