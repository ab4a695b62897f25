//! The builders of a binding: from the caller's addresses and arguments to
//! the call that goes on the wire.

use vstd::prelude::*;
use vstd::slice::slice_to_vec;
use vstd::utf8::encode_utf8;
use crate::accounts::account_slots;
use crate::address::{derived_address, find_program_address, seeds_of};
use crate::binding::{binding_of, InstructionBinding, InstructionBindingView, Program};
use crate::discriminator::{dispatch_tag, sha256_of};
use crate::idl_types::IdlJsonInstruction;
use crate::encode::{
    bundle_encodable, encode_bundle, encoded_bundle, views_of, ArgValue, ArgValueView,
};

verus! {

/// One account of a call: its address and the flags it goes on the wire with.
#[derive(Debug, Clone, Copy, PartialEq, Eq)]
pub struct AccountMeta {
    pub pubkey: [u8; 32],
    pub is_signer: bool,
    pub is_writable: bool,
}

/// A call: the program it goes to, the accounts it touches, and its payload.
#[derive(Debug, Clone, PartialEq, Eq)]
pub struct Instruction {
    pub program_id: [u8; 32],
    pub accounts: Vec<AccountMeta>,
    pub data: Vec<u8>,
}

/// An [`Instruction`] with its contents as sequences.
pub struct InstructionView {
    pub program_id: [u8; 32],
    pub accounts: Seq<AccountMeta>,
    pub data: Seq<u8>,
}

impl View for Instruction {
    type V = InstructionView;

    open spec fn view(&self) -> InstructionView {
        InstructionView {
            program_id: self.program_id,
            accounts: self.accounts@,
            data: self.data@,
        }
    }
}

/// Why a builder built no call.
#[derive(Debug, Clone, Copy, PartialEq, Eq, Structural)]
pub enum CallError {
    /// The addresses supplied are not one per account of the instruction.
    WrongArity,
    /// The values supplied are not one per declared argument, each of the
    /// declared type.
    ArgumentMismatch,
    /// A value has no encoding: a length does not fit in four bytes.
    Unencodable,
}

impl InstructionBindingView {
    /// Whether the values are one per declared argument, each of the declared
    /// type. An instruction without a bundle takes no values.
    pub open spec fn accepts(self, values: Seq<ArgValueView>) -> bool {
        match self.args {
            None => values.len() == 0,
            Some(bundle) => {
                &&& values.len() == bundle.fields.len()
                &&& forall|i: int|
                    0 <= i < values.len() ==> (#[trigger] values[i]).arg_type()
                        == bundle.fields[i].arg_type
            },
        }
    }

    /// The payload of a call with the given values: the dispatch tag, then the
    /// encoded bundle, with nothing in between.
    pub open spec fn payload_of(self, values: Seq<ArgValueView>) -> Result<Seq<u8>, CallError> {
        if !self.accepts(values) {
            Err(CallError::ArgumentMismatch)
        } else if !bundle_encodable(values) {
            Err(CallError::Unencodable)
        } else {
            Ok(self.discriminator + encoded_bundle(values))
        }
    }

    /// Whether `count` addresses are one per slot, each slot referring to one
    /// of them.
    pub open spec fn addressed_by(self, count: nat) -> bool {
        &&& self.accounts.slots.len() == count
        &&& forall|i: int|
            0 <= i < self.accounts.slots.len() ==> (#[trigger] self.accounts.slots[i]).index
                < count
    }

    /// The account of the call that comes from slot `i`.
    pub open spec fn meta_at(self, addresses: Seq<[u8; 32]>, i: int) -> AccountMeta {
        AccountMeta {
            pubkey: addresses[self.accounts.slots[i].index as int],
            is_signer: self.accounts.slots[i].is_signer,
            is_writable: self.accounts.slots[i].is_writable,
        }
    }

    /// The call with the given addresses and payload: one account per slot,
    /// in slot order, and the payload as it is.
    pub open spec fn call_of(self, addresses: Seq<[u8; 32]>, payload: Seq<u8>) -> Result<
        InstructionView,
        CallError,
    > {
        if !self.addressed_by(addresses.len()) {
            Err(CallError::WrongArity)
        } else {
            Ok(
                InstructionView {
                    program_id: self.program_id,
                    accounts: Seq::new(
                        self.accounts.slots.len(),
                        |i: int| self.meta_at(addresses, i),
                    ),
                    data: payload,
                },
            )
        }
    }

    /// The call with the given addresses and values. A fault of the values is
    /// reported before one of the addresses.
    pub open spec fn typed_call_of(
        self,
        addresses: Seq<[u8; 32]>,
        values: Seq<ArgValueView>,
    ) -> Result<InstructionView, CallError> {
        match self.payload_of(values) {
            Err(error) => Err(error),
            Ok(payload) => self.call_of(addresses, payload),
        }
    }
}

/// Where the description declares a tag, every payload of the instruction
/// begins with that tag, byte for byte and whatever its length; the encoded
/// arguments follow at once.
pub proof fn lemma_declared_tag_opens_payload(
    ix: IdlJsonInstruction,
    program_id: [u8; 32],
    values: Seq<ArgValueView>,
)
    requires
        binding_of(ix, program_id) is Ok,
        ix.discriminator is Some,
        (binding_of(ix, program_id)->Ok_0).payload_of(values) is Ok,
    ensures
        ({
            let payload = (binding_of(ix, program_id)->Ok_0).payload_of(values)->Ok_0;
            let tag = ix.discriminator.unwrap()@;
            &&& payload.len() >= tag.len()
            &&& payload.take(tag.len() as int) == tag
            &&& payload.skip(tag.len() as int) == encoded_bundle(values)
        }),
{
    let payload = (binding_of(ix, program_id)->Ok_0).payload_of(values)->Ok_0;
    let tag = ix.discriminator.unwrap()@;
    assert(payload.take(tag.len() as int) =~= tag);
    assert(payload.skip(tag.len() as int) =~= encoded_bundle(values));
}

/// Where the description declares no tag, the first eight bytes of every
/// payload of the instruction are the first eight bytes of the SHA-256
/// digest of `"global:"` followed by the instruction's name; the encoded
/// arguments follow at once.
pub proof fn lemma_derived_tag_opens_payload(
    ix: IdlJsonInstruction,
    program_id: [u8; 32],
    values: Seq<ArgValueView>,
)
    requires
        binding_of(ix, program_id) is Ok,
        ix.discriminator is None,
        (binding_of(ix, program_id)->Ok_0).payload_of(values) is Ok,
    ensures
        ({
            let payload = (binding_of(ix, program_id)->Ok_0).payload_of(values)->Ok_0;
            let digest = sha256_of(encode_utf8("global:"@ + ix.name@))@;
            &&& digest.len() == 32
            &&& payload.len() >= 8
            &&& payload.take(8) == digest.take(8)
            &&& payload.skip(8) == encoded_bundle(values)
        }),
{
    broadcast use vstd::array::array_len_matches_n;

    let payload = (binding_of(ix, program_id)->Ok_0).payload_of(values)->Ok_0;
    let digest = sha256_of(encode_utf8("global:"@ + ix.name@))@;
    assert(digest.len() == 32);
    assert(payload.take(8) =~= digest.take(8));
    assert(payload.skip(8) =~= encoded_bundle(values));
}

/// An instruction without arguments takes no values, and its payload is the
/// dispatch tag and nothing more.
pub proof fn lemma_no_arguments_payload_is_tag(
    ix: IdlJsonInstruction,
    program_id: [u8; 32],
    values: Seq<ArgValueView>,
)
    requires
        ix.arguments().len() == 0,
    ensures
        binding_of(ix, program_id) is Ok,
        (binding_of(ix, program_id)->Ok_0).args is None,
        (binding_of(ix, program_id)->Ok_0).payload_of(values) is Ok <==> values.len() == 0,
        (binding_of(ix, program_id)->Ok_0).payload_of(Seq::empty()) == Ok::<Seq<u8>, CallError>(
            dispatch_tag(&ix),
        ),
{
    let binding = binding_of(ix, program_id)->Ok_0;
    let none = Seq::<ArgValueView>::empty();
    assert(binding.discriminator + encoded_bundle(none) =~= dispatch_tag(&ix));
}

/// The accounts of a call follow the declaration. A call is built exactly
/// where one address is supplied per declared account. Its account `i` then
/// carries the address supplied at position `i`; it signs exactly if the
/// account declared at position `i` is a signer, and is writable exactly if
/// that account is a signer or declared mutable. The call goes to the
/// program, with the payload as it was given.
pub proof fn lemma_call_follows_declaration(
    ix: IdlJsonInstruction,
    program_id: [u8; 32],
    addresses: Seq<[u8; 32]>,
    payload: Seq<u8>,
)
    requires
        binding_of(ix, program_id) is Ok,
        ix.accounts@.len() <= usize::MAX,
    ensures
        ({
            let built = (binding_of(ix, program_id)->Ok_0).call_of(addresses, payload);
            &&& built is Ok <==> addresses.len() == ix.accounts@.len()
            &&& built is Err ==> built == Err::<InstructionView, CallError>(CallError::WrongArity)
            &&& built is Ok ==> {
                let call = built->Ok_0;
                &&& call.program_id == program_id
                &&& call.data == payload
                &&& call.accounts.len() == ix.accounts@.len()
                &&& forall|i: int|
                    0 <= i < ix.accounts@.len() ==> {
                        &&& (#[trigger] call.accounts[i]).pubkey == addresses[i]
                        &&& call.accounts[i].is_signer == ix.accounts@[i].is_signer
                        &&& call.accounts[i].is_writable == (ix.accounts@[i].is_signer
                            || ix.accounts@[i].is_mut)
                    }
            }
        }),
{
    let binding = binding_of(ix, program_id)->Ok_0;
    assert(binding.accounts.slots == account_slots(ix.accounts@));
    if addresses.len() == ix.accounts@.len() {
        assert(binding.addressed_by(addresses.len()));
    }
}

impl InstructionBinding {
    /// Whether the values fit the declared arguments.
    fn accepts(&self, args: &[ArgValue]) -> (fits: bool)
        ensures
            fits == self@.accepts(views_of(args@)),
    {
        match &self.args {
            None => args.len() == 0,
            Some(bundle) => {
                if args.len() != bundle.fields.len() {
                    return false;
                }
                let mut i: usize = 0;
                while i < args.len()
                    invariant
                        i <= args@.len(),
                        args@.len() == bundle.fields@.len(),
                        self.args == Some(*bundle),
                        forall|k: int|
                            0 <= k < i ==> (#[trigger] views_of(args@)[k]).arg_type()
                                == bundle@.fields[k].arg_type,
                    decreases args@.len() - i,
                {
                    if args[i].arg_type() != bundle.fields[i].arg_type {
                        assert(views_of(args@)[i as int].arg_type()
                            != bundle@.fields[i as int].arg_type);
                        return false;
                    }
                    i = i + 1;
                }
                true
            },
        }
    }

    /// Builds the payload of a call: the dispatch tag, then the encoded
    /// values in order, with nothing in between. With no values, for an
    /// instruction without arguments, the payload is the tag alone.
    pub fn payload(&self, args: &[ArgValue]) -> (out: Result<Vec<u8>, CallError>)
        ensures
            match out {
                Ok(bytes) => self@.payload_of(views_of(args@)) == Ok::<Seq<u8>, CallError>(bytes@),
                Err(error) => self@.payload_of(views_of(args@)) == Err::<Seq<u8>, CallError>(
                    error,
                ),
            },
            self.args is None && args@.len() == 0 ==> out is Ok && out.unwrap()@
                == self.discriminator@,
    {
        if !self.accepts(args) {
            return Err(CallError::ArgumentMismatch);
        }
        match encode_bundle(args) {
            None => Err(CallError::Unencodable),
            Some(mut encoded) => {
                let mut bytes = slice_to_vec(self.discriminator.as_slice());
                bytes.append(&mut encoded);
                proof {
                    if args@.len() == 0 {
                        assert(bytes@ =~= self.discriminator@);
                    }
                }
                Ok(bytes)
            },
        }
    }

    /// Builds a call from a ready payload, which is taken as it is.
    ///
    /// The call goes to the binding's program. Its accounts are the slots in
    /// order, each with the address that the caller supplied at the slot's
    /// position and with the slot's flags.
    pub fn instruction_from_bytes(&self, accounts: &[[u8; 32]], bytes: &[u8]) -> (out: Result<
        Instruction,
        CallError,
    >)
        ensures
            match out {
                Ok(call) => self@.call_of(accounts@, bytes@) == Ok::<InstructionView, CallError>(
                    call@,
                ),
                Err(error) => self@.call_of(accounts@, bytes@) == Err::<
                    InstructionView,
                    CallError,
                >(error),
            },
    {
        if accounts.len() != self.accounts.slots.len() {
            return Err(CallError::WrongArity);
        }
        let mut metas: Vec<AccountMeta> = Vec::new();
        let mut i: usize = 0;
        while i < self.accounts.slots.len()
            invariant
                i <= self.accounts.slots@.len(),
                accounts@.len() == self.accounts.slots@.len(),
                metas@.len() == i,
                forall|k: int|
                    0 <= k < i ==> (#[trigger] self@.accounts.slots[k]).index < accounts@.len(),
                forall|k: int| 0 <= k < i ==> #[trigger] metas@[k] == self@.meta_at(accounts@, k),
            decreases self.accounts.slots@.len() - i,
        {
            let slot = self.accounts.slots[i];
            if slot.index >= accounts.len() {
                assert(self@.accounts.slots[i as int].index >= accounts@.len());
                return Err(CallError::WrongArity);
            }
            metas.push(
                AccountMeta {
                    pubkey: accounts[slot.index],
                    is_signer: slot.is_signer,
                    is_writable: slot.is_writable,
                },
            );
            i = i + 1;
        }
        let call = Instruction {
            program_id: self.program_id,
            accounts: metas,
            data: slice_to_vec(bytes),
        };
        assert(call@.accounts =~= Seq::new(
            self@.accounts.slots.len(),
            |i: int| self@.meta_at(accounts@, i),
        ));
        Ok(call)
    }

    /// Builds a call from typed arguments: the payload is the dispatch tag
    /// followed by the encoded values.
    pub fn instruction_ix(&self, accounts: &[[u8; 32]], args: &[ArgValue]) -> (out: Result<
        Instruction,
        CallError,
    >)
        ensures
            match out {
                Ok(call) => self@.typed_call_of(accounts@, views_of(args@)) == Ok::<
                    InstructionView,
                    CallError,
                >(call@),
                Err(error) => self@.typed_call_of(accounts@, views_of(args@)) == Err::<
                    InstructionView,
                    CallError,
                >(error),
            },
    {
        match self.payload(args) {
            Err(error) => Err(error),
            Ok(bytes) => self.instruction_from_bytes(accounts, bytes.as_slice()),
        }
    }
}

impl Program {
    /// The program's address.
    pub fn id(&self) -> (id: [u8; 32])
        ensures
            id == self.id,
    {
        self.id
    }

    /// Derives the address that the program owns under `seeds`, with the bump
    /// that makes the derivation canonical; `None` where there is none.
    pub fn derive_program_address_and_bump(&self, seeds: &[&[u8]]) -> (found: Option<
        ([u8; 32], u8),
    >)
        ensures
            found == derived_address(seeds_of(seeds@), self.id),
    {
        find_program_address(seeds, &self.id)
    }

    /// Derives the address that the program owns under `seeds`; `None` where
    /// there is none.
    pub fn derive_program_address(&self, seeds: &[&[u8]]) -> (found: Option<[u8; 32]>)
        ensures
            found == match derived_address(seeds_of(seeds@), self.id) {
                Some(pair) => Some(pair.0),
                None => None,
            },
    {
        match self.derive_program_address_and_bump(seeds) {
            Some(pair) => Some(pair.0),
            None => None,
        }
    }
}

} // verus!
