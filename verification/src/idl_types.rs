//! The interface description as it is written down: a program, its
//! instructions, and for each instruction the accounts and arguments it takes.

use vstd::prelude::*;

verus! {

/// A whole interface description.
#[derive(Debug, Clone)]
pub struct IdlJson {
    /// Informational only.
    pub version: String,
    /// The program's name, in any casing.
    pub name: String,
    /// The instructions in declaration order; bindings keep this order.
    pub instructions: Vec<IdlJsonInstruction>,
    /// Account type declarations; carried along, never read by the compiler.
    pub accounts: Option<Vec<IdlJsonNewAccount>>,
    pub metadata: Option<IdlMetadata>,
}

#[derive(Debug, Clone)]
pub struct IdlMetadata {
    /// The program's address in base-58 text.
    pub address: Option<String>,
}

/// One callable entry point of the program.
#[derive(Debug, Clone)]
pub struct IdlJsonInstruction {
    pub name: String,
    /// The accounts in the order in which callers supply their addresses.
    pub accounts: Vec<IdlJsonAccount>,
    /// `None` stands for no arguments, as an empty list does.
    pub args: Option<Vec<IdlJsonArgument>>,
    /// The dispatch tag where the description fixes it.
    pub discriminator: Option<Vec<u8>>,
}

/// One account slot of an instruction.
#[derive(Debug, Clone)]
pub struct IdlJsonAccount {
    pub name: String,
    pub is_mut: bool,
    pub is_signer: bool,
}

/// One argument of an instruction.
#[derive(Debug, Clone)]
pub struct IdlJsonArgument {
    pub name: String,
    /// The declared type, by its name in the description.
    pub arg_type: String,
}

#[derive(Debug, Clone)]
pub struct IdlJsonNewAccount {
    pub name: String,
    pub account_type: IdlJsonNewAccountType,
}

#[derive(Debug, Clone)]
pub struct IdlJsonNewAccountType {
    pub kind: String,
    pub fields: Vec<IdlJsonField>,
}

#[derive(Debug, Clone)]
pub struct IdlJsonField {
    pub name: String,
    pub field_type: String,
}

impl IdlJsonInstruction {
    /// The declared arguments, with an absent list read as the empty one.
    pub open spec fn arguments(&self) -> Seq<IdlJsonArgument> {
        match self.args {
            Some(list) => list@,
            None => Seq::empty(),
        }
    }
}

impl IdlJson {
    /// The address text, where both the metadata and its address are there.
    pub open spec fn address(&self) -> Option<Seq<char>> {
        match self.metadata {
            Some(metadata) => match metadata.address {
                Some(text) => Some(text@),
                None => None,
            },
            None => None,
        }
    }
}

} // verus!
