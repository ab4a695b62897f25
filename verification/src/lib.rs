//! Compiles an interface description of an on-chain program into call
//! bindings: one dispatch tag, one account layout, and one argument bundle per
//! instruction, together with builders that assemble the wire payload.

pub mod accounts;
pub mod address;
pub mod arg_types;
pub mod binding;
pub mod call;
pub mod case;
pub mod discriminator;
pub mod encode;
pub mod error;
pub mod idl_types;
