//! The bindings of a program: for each instruction its names, its dispatch
//! tag, its account layout and the fields of its argument bundle; for the
//! program its type name and its address.

use vstd::prelude::*;
use vstd::string::StringExecFns;
use crate::accounts::{compile_accounts, layout_of, AccountLayout, AccountLayoutView};
use crate::address::{decode_address, decoded_address};
use crate::arg_types::{arg_type_named, map_arg_type, mapped_type, ArgType};
use crate::case::{recased, to_pascal_case, to_snake_case, CaseStyle};
use crate::discriminator::{dispatch_tag, resolve_tag};
use crate::error::{SchemaError, SchemaFault};
use crate::idl_types::{IdlJson, IdlJsonArgument, IdlJsonInstruction};

verus! {

/// One field of an argument bundle.
#[derive(Debug, Clone)]
pub struct ArgField {
    /// The argument's name in snake case.
    pub name: String,
    pub arg_type: ArgType,
}

/// An [`ArgField`] with its name as a sequence.
pub struct ArgFieldView {
    pub name: Seq<char>,
    pub arg_type: ArgType,
}

impl View for ArgField {
    type V = ArgFieldView;

    open spec fn view(&self) -> ArgFieldView {
        ArgFieldView { name: self.name@, arg_type: self.arg_type }
    }
}

/// The value type that carries the arguments of one instruction.
#[derive(Debug, Clone)]
pub struct ArgsStruct {
    /// The instruction's name in Pascal case, followed by `Args`.
    pub name: String,
    /// The fields in declaration order, which is the order they are encoded in.
    pub fields: Vec<ArgField>,
}

/// An [`ArgsStruct`] with its contents as sequences.
pub struct ArgsStructView {
    pub name: Seq<char>,
    pub fields: Seq<ArgFieldView>,
}

impl View for ArgsStruct {
    type V = ArgsStructView;

    open spec fn view(&self) -> ArgsStructView {
        ArgsStructView {
            name: self.name@,
            fields: self.fields@.map_values(|field: ArgField| field@),
        }
    }
}

/// The bindings of one instruction.
#[derive(Debug, Clone)]
pub struct InstructionBinding {
    /// The instruction's name as the description has it.
    pub name: String,
    /// The address of the program that every call goes to.
    pub program_id: [u8; 32],
    /// The dispatch tag: the first bytes of every payload.
    pub discriminator: Vec<u8>,
    pub accounts: AccountLayout,
    /// The argument bundle; `None` for an instruction without arguments, which
    /// has no bundle type.
    pub args: Option<ArgsStruct>,
    /// The name of the builder of a signed transaction.
    pub invoke: String,
    /// The name of the builder of an unsigned transaction.
    pub invoke_unsigned: String,
    /// The name of the builder of a call from typed arguments.
    pub instruction_ix: String,
    /// The name of the builder of a call from a ready payload.
    pub instruction_from_bytes: String,
}

/// An [`InstructionBinding`] with its contents as sequences.
pub struct InstructionBindingView {
    pub name: Seq<char>,
    pub program_id: [u8; 32],
    pub discriminator: Seq<u8>,
    pub accounts: AccountLayoutView,
    pub args: Option<ArgsStructView>,
    pub invoke: Seq<char>,
    pub invoke_unsigned: Seq<char>,
    pub instruction_ix: Seq<char>,
    pub instruction_from_bytes: Seq<char>,
}

impl View for InstructionBinding {
    type V = InstructionBindingView;

    open spec fn view(&self) -> InstructionBindingView {
        InstructionBindingView {
            name: self.name@,
            program_id: self.program_id,
            discriminator: self.discriminator@,
            accounts: self.accounts@,
            args: match self.args {
                Some(bundle) => Some(bundle@),
                None => None,
            },
            invoke: self.invoke@,
            invoke_unsigned: self.invoke_unsigned@,
            instruction_ix: self.instruction_ix@,
            instruction_from_bytes: self.instruction_from_bytes@,
        }
    }
}

/// The bindings of a program.
#[derive(Debug, Clone)]
pub struct Program {
    /// The program's name in Pascal case, followed by `Program`.
    pub name: String,
    /// The program's address.
    pub id: [u8; 32],
    /// One binding per instruction, in declaration order.
    pub instructions: Vec<InstructionBinding>,
}

/// A [`Program`] with its contents as sequences.
pub struct ProgramView {
    pub name: Seq<char>,
    pub id: [u8; 32],
    pub instructions: Seq<InstructionBindingView>,
}

impl View for Program {
    type V = ProgramView;

    open spec fn view(&self) -> ProgramView {
        ProgramView {
            name: self.name@,
            id: self.id,
            instructions: self.instructions@.map_values(|binding: InstructionBinding| binding@),
        }
    }
}

/// The field of a declared argument, or the error that its type gives.
pub open spec fn field_of(arg: IdlJsonArgument) -> Result<ArgFieldView, SchemaFault> {
    match mapped_type(arg.arg_type@) {
        Ok(arg_type) => Ok(
            ArgFieldView { name: recased(arg.name@, CaseStyle::Snake), arg_type },
        ),
        Err(fault) => Err(fault),
    }
}

/// The fields of a list of declared arguments, or the error of the first
/// among them whose type is outside the table.
pub open spec fn fields_of(args: Seq<IdlJsonArgument>) -> Result<Seq<ArgFieldView>, SchemaFault>
    decreases args.len(),
{
    if args.len() == 0 {
        Ok(Seq::empty())
    } else {
        match fields_of(args.drop_last()) {
            Err(fault) => Err(fault),
            Ok(fields) => match field_of(args.last()) {
                Err(fault) => Err(fault),
                Ok(field) => Ok(fields.push(field)),
            },
        }
    }
}

/// The argument bundle of an instruction: none where it declares no
/// arguments.
pub open spec fn args_struct_of(ix: IdlJsonInstruction) -> Result<
    Option<ArgsStructView>,
    SchemaFault,
> {
    if ix.arguments().len() == 0 {
        Ok(None)
    } else {
        match fields_of(ix.arguments()) {
            Err(fault) => Err(fault),
            Ok(fields) => Ok(
                Some(
                    ArgsStructView {
                        name: recased(ix.name@, CaseStyle::Pascal) + "Args"@,
                        fields,
                    },
                ),
            ),
        }
    }
}

/// The bindings of an instruction of the program at `program_id`.
pub open spec fn binding_of(ix: IdlJsonInstruction, program_id: [u8; 32]) -> Result<
    InstructionBindingView,
    SchemaFault,
> {
    match args_struct_of(ix) {
        Err(fault) => Err(fault),
        Ok(args) => Ok(
            InstructionBindingView {
                name: ix.name@,
                program_id,
                discriminator: dispatch_tag(&ix),
                accounts: layout_of(ix.accounts@),
                args,
                invoke: recased(ix.name@, CaseStyle::Snake),
                invoke_unsigned: recased(ix.name@, CaseStyle::Snake) + "_unsigned"@,
                instruction_ix: recased(ix.name@, CaseStyle::Snake) + "_ix"@,
                instruction_from_bytes: recased(ix.name@, CaseStyle::Snake) + "_ix_from_bytes"@,
            },
        ),
    }
}

/// The bindings of a list of instructions, or the error of the first among
/// them that has one.
pub open spec fn bindings_of(instructions: Seq<IdlJsonInstruction>, program_id: [u8; 32]) -> Result<
    Seq<InstructionBindingView>,
    SchemaFault,
>
    decreases instructions.len(),
{
    if instructions.len() == 0 {
        Ok(Seq::empty())
    } else {
        match bindings_of(instructions.drop_last(), program_id) {
            Err(fault) => Err(fault),
            Ok(bindings) => match binding_of(instructions.last(), program_id) {
                Err(fault) => Err(fault),
                Ok(binding) => Ok(bindings.push(binding)),
            },
        }
    }
}

/// The bindings of a description. A missing address is reported before
/// anything else is looked at, an undecodable one before any instruction.
pub open spec fn program_of(idl: IdlJson) -> Result<ProgramView, SchemaFault> {
    match idl.address() {
        None => Err(SchemaFault::MissingAddress),
        Some(text) => match decoded_address(text) {
            None => Err(SchemaFault::InvalidAddress),
            Some(id) => match bindings_of(idl.instructions@, id) {
                Err(fault) => Err(fault),
                Ok(instructions) => Ok(
                    ProgramView {
                        name: recased(idl.name@, CaseStyle::Pascal) + "Program"@,
                        id,
                        instructions,
                    },
                ),
            },
        },
    }
}

/// The fields follow the declaration: where a list of arguments compiles,
/// there is one field per argument, and field `i` is that of argument `i`. A
/// list compiles exactly if each of its arguments does.
pub proof fn lemma_fields_follow_declaration(args: Seq<IdlJsonArgument>)
    ensures
        fields_of(args) is Ok <==> forall|i: int|
            0 <= i < args.len() ==> (#[trigger] field_of(args[i])) is Ok,
        fields_of(args) is Ok ==> (fields_of(args)->Ok_0).len() == args.len(),
        fields_of(args) is Ok ==> forall|i: int|
            0 <= i < args.len() ==> #[trigger] field_of(args[i]) == Ok::<
                ArgFieldView,
                SchemaFault,
            >((fields_of(args)->Ok_0)[i]),
    decreases args.len(),
{
    if args.len() > 0 {
        let rest = args.drop_last();
        lemma_fields_follow_declaration(rest);
        if fields_of(args) is Ok {
            assert forall|i: int| 0 <= i < args.len() implies (#[trigger] field_of(args[i]))
                is Ok by {
                if i < rest.len() {
                    assert(args[i] == rest[i]);
                }
            }
        }
        if forall|i: int| 0 <= i < args.len() ==> (#[trigger] field_of(args[i])) is Ok {
            assert forall|i: int| 0 <= i < rest.len() implies (#[trigger] field_of(rest[i]))
                is Ok by {
                assert(rest[i] == args[i]);
            }
            assert(field_of(args.last()) is Ok);
        }
        if fields_of(args) is Ok {
            assert forall|i: int| 0 <= i < args.len() implies #[trigger] field_of(args[i]) == Ok::<
                ArgFieldView,
                SchemaFault,
            >((fields_of(args)->Ok_0)[i]) by {
                if i < rest.len() {
                    assert(args[i] == rest[i]);
                }
            }
        }
    }
}

/// The only fault of a list of arguments is an unsupported type: a declared
/// type name outside the table, carried as it is written.
pub proof fn lemma_fields_fault(args: Seq<IdlJsonArgument>)
    requires
        fields_of(args) is Err,
    ensures
        exists|i: int|
            0 <= i < args.len() && arg_type_named(args[i].arg_type@) is None && fields_of(args)
                == Err::<Seq<ArgFieldView>, SchemaFault>(
                SchemaFault::UnsupportedType(#[trigger] args[i].arg_type@),
            ),
    decreases args.len(),
{
    let rest = args.drop_last();
    if fields_of(rest) is Err {
        lemma_fields_fault(rest);
        let i = choose|i: int|
            0 <= i < rest.len() && arg_type_named(rest[i].arg_type@) is None && fields_of(rest)
                == Err::<Seq<ArgFieldView>, SchemaFault>(
                SchemaFault::UnsupportedType(#[trigger] rest[i].arg_type@),
            );
        assert(args[i] == rest[i]);
    } else {
        assert(args[args.len() - 1] == args.last());
    }
}

/// The bindings follow the declaration: where a list of instructions
/// compiles, there is one binding per instruction, and binding `i` is that of
/// instruction `i`. A list compiles exactly if each of its instructions does.
pub proof fn lemma_bindings_follow_declaration(
    instructions: Seq<IdlJsonInstruction>,
    program_id: [u8; 32],
)
    ensures
        bindings_of(instructions, program_id) is Ok <==> forall|i: int|
            0 <= i < instructions.len() ==> (#[trigger] binding_of(instructions[i], program_id))
                is Ok,
        bindings_of(instructions, program_id) is Ok ==> (bindings_of(
            instructions,
            program_id,
        )->Ok_0).len() == instructions.len(),
        bindings_of(instructions, program_id) is Ok ==> forall|i: int|
            0 <= i < instructions.len() ==> #[trigger] binding_of(instructions[i], program_id)
                == Ok::<InstructionBindingView, SchemaFault>(
                (bindings_of(instructions, program_id)->Ok_0)[i],
            ),
    decreases instructions.len(),
{
    if instructions.len() > 0 {
        let rest = instructions.drop_last();
        lemma_bindings_follow_declaration(rest, program_id);
        if bindings_of(instructions, program_id) is Ok {
            assert forall|i: int| 0 <= i < instructions.len() implies (#[trigger] binding_of(
                instructions[i],
                program_id,
            )) is Ok by {
                if i < rest.len() {
                    assert(instructions[i] == rest[i]);
                }
            }
            assert forall|i: int| 0 <= i < instructions.len() implies #[trigger] binding_of(
                instructions[i],
                program_id,
            ) == Ok::<InstructionBindingView, SchemaFault>(
                (bindings_of(instructions, program_id)->Ok_0)[i],
            ) by {
                if i < rest.len() {
                    assert(instructions[i] == rest[i]);
                }
            }
        }
        if forall|i: int|
            0 <= i < instructions.len() ==> (#[trigger] binding_of(instructions[i], program_id))
                is Ok {
            assert forall|i: int| 0 <= i < rest.len() implies (#[trigger] binding_of(
                rest[i],
                program_id,
            )) is Ok by {
                assert(rest[i] == instructions[i]);
            }
            assert(binding_of(instructions.last(), program_id) is Ok);
        }
    }
}

/// The only fault of a list of instructions is an unsupported type.
pub proof fn lemma_bindings_fault(instructions: Seq<IdlJsonInstruction>, program_id: [u8; 32])
    requires
        bindings_of(instructions, program_id) is Err,
    ensures
        exists|name: Seq<char>|
            (#[trigger] arg_type_named(name)) is None && bindings_of(instructions, program_id) == Err::<
                Seq<InstructionBindingView>,
                SchemaFault,
            >(SchemaFault::UnsupportedType(name)),
    decreases instructions.len(),
{
    let rest = instructions.drop_last();
    if bindings_of(rest, program_id) is Err {
        lemma_bindings_fault(rest, program_id);
    } else {
        let args = instructions.last().arguments();
        lemma_fields_fault(args);
        let i = choose|i: int|
            0 <= i < args.len() && arg_type_named(args[i].arg_type@) is None && fields_of(args)
                == Err::<Seq<ArgFieldView>, SchemaFault>(
                SchemaFault::UnsupportedType(#[trigger] args[i].arg_type@),
            );
        assert(bindings_of(instructions, program_id) == Err::<
            Seq<InstructionBindingView>,
            SchemaFault,
        >(SchemaFault::UnsupportedType(args[i].arg_type@)));
    }
}

/// Which fault a description has: a missing address exactly where the
/// metadata or its address is absent, whatever else the description holds; an
/// invalid address exactly where the address is there and decodes to no key;
/// in every other case an unsupported type. A typed description is never
/// malformed.
pub proof fn lemma_program_fault(idl: IdlJson)
    ensures
        program_of(idl) == Err::<ProgramView, SchemaFault>(SchemaFault::MissingAddress)
            <==> idl.address() is None,
        program_of(idl) == Err::<ProgramView, SchemaFault>(SchemaFault::InvalidAddress) <==> (
        idl.address() is Some && decoded_address(idl.address().unwrap()) is None),
        program_of(idl) != Err::<ProgramView, SchemaFault>(SchemaFault::MalformedSchema),
        program_of(idl) is Err && idl.address() is Some && decoded_address(
            idl.address().unwrap(),
        ) is Some ==> exists|name: Seq<char>|
            (#[trigger] arg_type_named(name)) is None && program_of(idl) == Err::<ProgramView, SchemaFault>(
                SchemaFault::UnsupportedType(name),
            ),
{
    if idl.address() is Some && decoded_address(idl.address().unwrap()) is Some {
        let id = decoded_address(idl.address().unwrap()).unwrap();
        if bindings_of(idl.instructions@, id) is Err {
            lemma_bindings_fault(idl.instructions@, id);
            let name = choose|name: Seq<char>|
                (#[trigger] arg_type_named(name)) is None && bindings_of(idl.instructions@, id) == Err::<
                    Seq<InstructionBindingView>,
                    SchemaFault,
                >(SchemaFault::UnsupportedType(name));
            assert(program_of(idl) == Err::<ProgramView, SchemaFault>(
                SchemaFault::UnsupportedType(name),
            ));
        }
    }
}

/// Every binding of a compiled program is addressed to the program, and the
/// bindings are those of the instructions, in declaration order.
pub proof fn lemma_program_bindings(idl: IdlJson, i: int)
    requires
        program_of(idl) is Ok,
        0 <= i < idl.instructions@.len(),
    ensures
        (program_of(idl)->Ok_0).instructions.len() == idl.instructions@.len(),
        binding_of(idl.instructions@[i], (program_of(idl)->Ok_0).id) == Ok::<
            InstructionBindingView,
            SchemaFault,
        >((program_of(idl)->Ok_0).instructions[i]),
        (program_of(idl)->Ok_0).instructions[i].program_id == (program_of(idl)->Ok_0).id,
        Some((program_of(idl)->Ok_0).id) == decoded_address(idl.address().unwrap()),
{
    let id = decoded_address(idl.address().unwrap()).unwrap();
    lemma_bindings_follow_declaration(idl.instructions@, id);
}

/// An instruction without arguments always compiles, and has no bundle.
pub proof fn lemma_no_arguments_no_bundle(ix: IdlJsonInstruction, program_id: [u8; 32])
    ensures
        ix.arguments().len() == 0 ==> binding_of(ix, program_id) is Ok && (binding_of(
            ix,
            program_id,
        )->Ok_0).args is None,
        binding_of(ix, program_id) is Ok && ix.arguments().len() > 0 ==> (binding_of(
            ix,
            program_id,
        )->Ok_0).args is Some,
{
}

/// An error among the first arguments is the error of the whole list.
proof fn lemma_fields_error_stays(args: Seq<IdlJsonArgument>, i: int)
    requires
        0 <= i <= args.len(),
        fields_of(args.take(i)) is Err,
    ensures
        fields_of(args) == fields_of(args.take(i)),
    decreases args.len() - i,
{
    if i == args.len() {
        assert(args.take(i) =~= args);
    } else {
        assert(args.take(i + 1).drop_last() =~= args.take(i));
        lemma_fields_error_stays(args, i + 1);
    }
}

/// An error among the first instructions is the error of the whole list.
proof fn lemma_bindings_error_stays(
    instructions: Seq<IdlJsonInstruction>,
    program_id: [u8; 32],
    i: int,
)
    requires
        0 <= i <= instructions.len(),
        bindings_of(instructions.take(i), program_id) is Err,
    ensures
        bindings_of(instructions, program_id) == bindings_of(instructions.take(i), program_id),
    decreases instructions.len() - i,
{
    if i == instructions.len() {
        assert(instructions.take(i) =~= instructions);
    } else {
        assert(instructions.take(i + 1).drop_last() =~= instructions.take(i));
        lemma_bindings_error_stays(instructions, program_id, i + 1);
    }
}

/// Compiles the declared arguments into the fields of a bundle.
fn compile_fields(args: &Vec<IdlJsonArgument>) -> (compiled: Result<Vec<ArgField>, SchemaError>)
    ensures
        match compiled {
            Ok(fields) => fields_of(args@) == Ok::<Seq<ArgFieldView>, SchemaFault>(
                fields@.map_values(|field: ArgField| field@),
            ),
            Err(error) => fields_of(args@) == Err::<Seq<ArgFieldView>, SchemaFault>(error@),
        },
{
    let mut fields: Vec<ArgField> = Vec::new();
    let mut i: usize = 0;
    assert(fields@.map_values(|field: ArgField| field@) =~= Seq::empty());
    while i < args.len()
        invariant
            i <= args@.len(),
            fields_of(args@.take(i as int)) == Ok::<Seq<ArgFieldView>, SchemaFault>(
                fields@.map_values(|field: ArgField| field@),
            ),
        decreases args@.len() - i,
    {
        let arg = &args[i];
        let ghost done = fields@.map_values(|field: ArgField| field@);
        proof {
            assert(args@.take(i + 1).drop_last() =~= args@.take(i as int));
            assert(args@.take(i + 1).last() == args@[i as int]);
        }
        let name = to_snake_case(arg.name.as_str());
        match map_arg_type(arg.arg_type.as_str()) {
            Ok(arg_type) => {
                let field = ArgField { name, arg_type };
                fields.push(field);
                assert(fields@.map_values(|field: ArgField| field@) =~= done.push(field@));
            },
            Err(error) => {
                proof {
                    lemma_fields_error_stays(args@, i + 1);
                }
                return Err(error);
            },
        }
        i = i + 1;
    }
    assert(args@.take(i as int) =~= args@);
    Ok(fields)
}

/// Compiles one instruction of the program at `program_id`.
///
/// The only error is that of an argument type outside the table; it names the
/// first such type in declaration order.
pub fn compile_instruction(ix: &IdlJsonInstruction, program_id: &[u8; 32]) -> (compiled: Result<
    InstructionBinding,
    SchemaError,
>)
    ensures
        match compiled {
            Ok(binding) => binding_of(*ix, *program_id) == Ok::<
                InstructionBindingView,
                SchemaFault,
            >(binding@),
            Err(error) => binding_of(*ix, *program_id) == Err::<
                InstructionBindingView,
                SchemaFault,
            >(error@),
        },
{
    let snake = to_snake_case(ix.name.as_str());
    let discriminator = resolve_tag(ix);
    let accounts = compile_accounts(&ix.accounts);
    let args = match &ix.args {
        None => None,
        Some(declared) => {
            if declared.len() == 0 {
                None
            } else {
                match compile_fields(declared) {
                    Err(error) => {
                        return Err(error);
                    },
                    Ok(fields) => {
                        let name = to_pascal_case(ix.name.as_str()).concat("Args");
                        Some(ArgsStruct { name, fields })
                    },
                }
            }
        },
    };
    Ok(
        InstructionBinding {
            name: ix.name.clone(),
            program_id: *program_id,
            discriminator,
            accounts,
            args,
            invoke: snake.clone(),
            invoke_unsigned: snake.clone().concat("_unsigned"),
            instruction_ix: snake.clone().concat("_ix"),
            instruction_from_bytes: snake.concat("_ix_from_bytes"),
        },
    )
}

/// Compiles a description into the bindings of its program.
///
/// Fails as a whole: with `MissingAddress` where the description has no
/// metadata or the metadata no address, whatever else it holds; with
/// `InvalidAddress` where the address decodes to no key; else with the first
/// unsupported argument type, instructions and arguments taken in
/// declaration order. On success there is one binding per instruction, in
/// declaration order, each addressed to the decoded key.
pub fn compile(idl: &IdlJson) -> (compiled: Result<Program, SchemaError>)
    ensures
        match compiled {
            Ok(program) => program_of(*idl) == Ok::<ProgramView, SchemaFault>(program@),
            Err(error) => program_of(*idl) == Err::<ProgramView, SchemaFault>(error@),
        },
        idl.address() is None <==> compiled == Err::<Program, SchemaError>(
            SchemaError::MissingAddress,
        ),
{
    proof {
        lemma_program_fault(*idl);
    }
    let text = match &idl.metadata {
        None => {
            return Err(SchemaError::MissingAddress);
        },
        Some(metadata) => match &metadata.address {
            None => {
                return Err(SchemaError::MissingAddress);
            },
            Some(text) => text,
        },
    };
    let id = match decode_address(text.as_str()) {
        None => {
            return Err(SchemaError::InvalidAddress);
        },
        Some(id) => id,
    };
    let name = to_pascal_case(idl.name.as_str()).concat("Program");
    let mut instructions: Vec<InstructionBinding> = Vec::new();
    let mut i: usize = 0;
    assert(instructions@.map_values(|binding: InstructionBinding| binding@) =~= Seq::empty());
    while i < idl.instructions.len()
        invariant
            i <= idl.instructions@.len(),
            idl.address() == Some(text@),
            decoded_address(text@) == Some(id),
            bindings_of(idl.instructions@.take(i as int), id) == Ok::<
                Seq<InstructionBindingView>,
                SchemaFault,
            >(instructions@.map_values(|binding: InstructionBinding| binding@)),
        decreases idl.instructions@.len() - i,
    {
        let ghost done = instructions@.map_values(|binding: InstructionBinding| binding@);
        proof {
            assert(idl.instructions@.take(i + 1).drop_last() =~= idl.instructions@.take(i as int));
            assert(idl.instructions@.take(i + 1).last() == idl.instructions@[i as int]);
        }
        match compile_instruction(&idl.instructions[i], &id) {
            Ok(binding) => {
                instructions.push(binding);
                assert(instructions@.map_values(|binding: InstructionBinding| binding@)
                    =~= done.push(binding@));
            },
            Err(error) => {
                proof {
                    lemma_bindings_error_stays(idl.instructions@, id, i + 1);
                    lemma_program_fault(*idl);
                }
                return Err(error);
            },
        }
        i = i + 1;
    }
    assert(idl.instructions@.take(i as int) =~= idl.instructions@);
    Ok(Program { name, id, instructions })
}

/// What compiling the outcome of reading a document gives: a document that
/// could not be read as a description is malformed, and that is reported
/// before anything else.
pub open spec fn document_of(parsed: Option<IdlJson>) -> Result<ProgramView, SchemaFault> {
    match parsed {
        None => Err(SchemaFault::MalformedSchema),
        Some(idl) => program_of(idl),
    }
}

/// Compiles what a reader made of a document, where `None` stands for a
/// document that is no interface description.
pub fn compile_document(parsed: &Option<IdlJson>) -> (compiled: Result<Program, SchemaError>)
    ensures
        match compiled {
            Ok(program) => document_of(*parsed) == Ok::<ProgramView, SchemaFault>(program@),
            Err(error) => document_of(*parsed) == Err::<ProgramView, SchemaFault>(error@),
        },
        parsed is None <==> compiled == Err::<Program, SchemaError>(SchemaError::MalformedSchema),
{
    match parsed {
        None => Err(SchemaError::MalformedSchema),
        Some(idl) => {
            proof {
                lemma_program_fault(*idl);
            }
            compile(idl)
        },
    }
}

} // verus!
