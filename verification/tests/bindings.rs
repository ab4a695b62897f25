use solana_idlgen::binding::{compile, compile_document};
use solana_idlgen::call::CallError;
use solana_idlgen::encode::ArgValue;
use solana_idlgen::error::SchemaError;
use solana_idlgen::idl_types::{
    IdlJson, IdlJsonAccount, IdlJsonArgument, IdlJsonField, IdlJsonInstruction, IdlJsonNewAccount,
    IdlJsonNewAccountType, IdlMetadata,
};
use solana_sdk::hash::hash;
use solana_sdk::pubkey::Pubkey;

fn account(name: &str, is_mut: bool, is_signer: bool) -> IdlJsonAccount {
    IdlJsonAccount { name: name.to_string(), is_mut, is_signer }
}

fn example_idl() -> IdlJson {
    IdlJson {
        version: "0.1.0".to_string(),
        name: "example".to_string(),
        instructions: vec![
            IdlJsonInstruction {
                name: "example".to_string(),
                accounts: vec![
                    account("signer", true, true),
                    account("exampleAccount", true, false),
                    account("systemProgram", false, false),
                ],
                args: Some(vec![IdlJsonArgument {
                    name: "name".to_string(),
                    arg_type: "bytes".to_string(),
                }]),
                discriminator: None,
            },
            IdlJsonInstruction {
                name: "exampleTwo".to_string(),
                accounts: vec![
                    account("signer", true, true),
                    account("systemProgram", false, false),
                ],
                args: Some(vec![]),
                discriminator: None,
            },
        ],
        accounts: Some(vec![IdlJsonNewAccount {
            name: "ExampleAccount".to_string(),
            account_type: IdlJsonNewAccountType {
                kind: "struct".to_string(),
                fields: vec![IdlJsonField {
                    name: "name".to_string(),
                    field_type: "bytes".to_string(),
                }],
            },
        }]),
        metadata: Some(IdlMetadata {
            address: Some("11111111111111111111111111111111".to_string()),
        }),
    }
}

const SIGNER: [u8; 32] = [7; 32];
const SYSTEM_PROGRAM: [u8; 32] = [0; 32];

#[test]
fn lib_no_metadata() {
    let program = compile(&example_idl()).unwrap();

    let seeds: [&[u8]; 2] = [b"example", &SIGNER];
    let example = program.derive_program_address(&seeds).unwrap();

    let args = [ArgValue::Bytes(b"anatoly".to_vec())];

    let ix_1 = program.instructions[0]
        .instruction_ix(&[SIGNER, example, SYSTEM_PROGRAM], &args)
        .unwrap();
    let ix_2 = program.instructions[1].instruction_ix(&[SIGNER, SYSTEM_PROGRAM], &[]).unwrap();

    let mut example_discriminator: Vec<u8> = hash(b"global:example").to_bytes()[0..8].to_vec();
    example_discriminator.extend_from_slice(&[7, 0, 0, 0]);
    example_discriminator.extend_from_slice(b"anatoly");
    let example_two_discriminator: Vec<u8> =
        hash(b"global:exampleTwo").to_bytes()[0..8].to_vec();
    assert_eq!(example_discriminator, ix_1.data);
    assert_eq!(example_two_discriminator, ix_2.data);
}

#[test]
fn main_no_metadata() {
    let idl = IdlJson {
        version: "0.1.0".to_string(),
        name: "Test".to_string(),
        instructions: vec![],
        accounts: Some(vec![]),
        metadata: None,
    };
    assert_eq!(compile(&idl).unwrap_err(), SchemaError::MissingAddress);
}

#[test]
fn typed_builder_payload_is_tag_then_prefixed_bytes() {
    let program = compile(&example_idl()).unwrap();
    let binding = &program.instructions[0];
    let payload = binding.payload(&[ArgValue::Bytes(b"anatoly".to_vec())]).unwrap();
    let tag = hash(b"global:example").to_bytes();
    assert_eq!(payload.len(), 8 + 4 + 7);
    assert_eq!(&payload[0..8], &tag[0..8]);
    assert_eq!(&payload[8..12], &[7, 0, 0, 0]);
    assert_eq!(&payload[12..], b"anatoly");
}

#[test]
fn no_arguments_payload_is_the_tag_alone() {
    let program = compile(&example_idl()).unwrap();
    let binding = &program.instructions[1];
    assert!(binding.args.is_none());
    let payload = binding.payload(&[]).unwrap();
    assert_eq!(payload, binding.discriminator);
    assert_eq!(payload.len(), 8);
    assert_eq!(payload, hash(b"global:exampleTwo").to_bytes()[0..8].to_vec());
}

#[test]
fn tag_hashes_the_name_as_written() {
    let mut idl = example_idl();
    idl.instructions[1].name = "example_two".to_string();
    let program = compile(&idl).unwrap();
    assert_eq!(
        program.instructions[1].discriminator,
        hash(b"global:example_two").to_bytes()[0..8].to_vec()
    );
    assert_ne!(
        compile(&example_idl()).unwrap().instructions[1].discriminator,
        program.instructions[1].discriminator
    );
}

#[test]
fn absent_argument_list_is_an_empty_one() {
    let mut idl = example_idl();
    idl.instructions[1].args = None;
    let program = compile(&idl).unwrap();
    assert!(program.instructions[1].args.is_none());
    assert_eq!(
        program.instructions[1].payload(&[]).unwrap(),
        program.instructions[1].discriminator
    );
}

#[test]
fn explicit_discriminator_is_used_verbatim() {
    let mut idl = example_idl();
    idl.instructions[0].discriminator = Some(vec![1, 2, 3, 4, 5, 6, 7, 8]);
    idl.instructions[1].discriminator = Some(vec![9, 8, 7]);
    let program = compile(&idl).unwrap();
    assert_eq!(program.instructions[0].discriminator, vec![1, 2, 3, 4, 5, 6, 7, 8]);
    assert_eq!(program.instructions[1].discriminator, vec![9, 8, 7]);
    let payload = program.instructions[0].payload(&[ArgValue::Bytes(vec![0xaa])]).unwrap();
    assert_eq!(payload, vec![1, 2, 3, 4, 5, 6, 7, 8, 1, 0, 0, 0, 0xaa]);
    assert_eq!(program.instructions[1].payload(&[]).unwrap(), vec![9, 8, 7]);
}

#[test]
fn names_follow_the_casings() {
    let program = compile(&example_idl()).unwrap();
    assert_eq!(program.name, "ExampleProgram");
    let first = &program.instructions[0];
    assert_eq!(first.name, "example");
    assert_eq!(first.invoke, "example");
    assert_eq!(first.invoke_unsigned, "example_unsigned");
    assert_eq!(first.instruction_ix, "example_ix");
    assert_eq!(first.instruction_from_bytes, "example_ix_from_bytes");
    let bundle = first.args.as_ref().unwrap();
    assert_eq!(bundle.name, "ExampleArgs");
    assert_eq!(bundle.fields.len(), 1);
    assert_eq!(bundle.fields[0].name, "name");
    assert_eq!(bundle.fields[0].arg_type.rust_type(), "Vec<u8>");
    let second = &program.instructions[1];
    assert_eq!(second.name, "exampleTwo");
    assert_eq!(second.invoke, "example_two");
    assert_eq!(second.invoke_unsigned, "example_two_unsigned");
    assert_eq!(second.instruction_ix, "example_two_ix");
    assert_eq!(second.instruction_from_bytes, "example_two_ix_from_bytes");
}

#[test]
fn program_id_is_the_decoded_address() {
    let program = compile(&example_idl()).unwrap();
    assert_eq!(program.id(), [0u8; 32]);
    assert_eq!(program.instructions[0].program_id, [0u8; 32]);
    assert_eq!(program.instructions[1].program_id, [0u8; 32]);

    let mut idl = example_idl();
    let text = "14grJpemFaf88c8tiVb77W7TYg2W3ir6pfkKz3YjhhZ5";
    idl.metadata = Some(IdlMetadata { address: Some(text.to_string()) });
    let program = compile(&idl).unwrap();
    let expected = text.parse::<Pubkey>().unwrap().to_bytes();
    assert_ne!(expected, [0u8; 32]);
    assert_eq!(program.id(), expected);
    assert_eq!(program.instructions[0].program_id, expected);
}

#[test]
fn missing_address_stops_everything() {
    let mut idl = example_idl();
    idl.metadata = Some(IdlMetadata { address: None });
    assert_eq!(compile(&idl).unwrap_err(), SchemaError::MissingAddress);

    // Even where another fault is present.
    let mut idl = example_idl();
    idl.metadata = None;
    idl.instructions[0].args.as_mut().unwrap()[0].arg_type = "u512".to_string();
    assert_eq!(compile(&idl).unwrap_err(), SchemaError::MissingAddress);
}

#[test]
fn undecodable_address_is_invalid() {
    for text in ["", "not base 58!", "1111", "0OIl0OIl0OIl0OIl0OIl0OIl0OIl0OIl"] {
        let mut idl = example_idl();
        idl.metadata = Some(IdlMetadata { address: Some(text.to_string()) });
        assert_eq!(compile(&idl).unwrap_err(), SchemaError::InvalidAddress);
    }
    // Before any unsupported type is looked at.
    let mut idl = example_idl();
    idl.metadata = Some(IdlMetadata { address: Some("1111".to_string()) });
    idl.instructions[0].args.as_mut().unwrap()[0].arg_type = "u512".to_string();
    assert_eq!(compile(&idl).unwrap_err(), SchemaError::InvalidAddress);
}

#[test]
fn first_unsupported_type_is_reported() {
    let mut idl = example_idl();
    idl.instructions[0].args = Some(vec![
        IdlJsonArgument { name: "a".to_string(), arg_type: "u64".to_string() },
        IdlJsonArgument { name: "b".to_string(), arg_type: "u512".to_string() },
        IdlJsonArgument { name: "c".to_string(), arg_type: "Bytes".to_string() },
    ]);
    idl.instructions[1].args = Some(vec![IdlJsonArgument {
        name: "d".to_string(),
        arg_type: "vec".to_string(),
    }]);
    assert_eq!(compile(&idl).unwrap_err(), SchemaError::UnsupportedType("u512".to_string()));
}

#[test]
fn wrong_number_of_addresses_is_refused() {
    let program = compile(&example_idl()).unwrap();
    let binding = &program.instructions[0];
    assert_eq!(
        binding.instruction_from_bytes(&[SIGNER, SYSTEM_PROGRAM], &[1, 2, 3]).unwrap_err(),
        CallError::WrongArity
    );
    assert_eq!(
        binding
            .instruction_from_bytes(&[SIGNER, SIGNER, SIGNER, SYSTEM_PROGRAM], &[])
            .unwrap_err(),
        CallError::WrongArity
    );
    assert_eq!(
        binding
            .instruction_ix(&[SIGNER], &[ArgValue::Bytes(b"anatoly".to_vec())])
            .unwrap_err(),
        CallError::WrongArity
    );
}

#[test]
fn values_must_fit_the_declared_arguments() {
    let program = compile(&example_idl()).unwrap();
    let with_args = &program.instructions[0];
    let without_args = &program.instructions[1];
    assert_eq!(with_args.payload(&[]).unwrap_err(), CallError::ArgumentMismatch);
    assert_eq!(
        with_args.payload(&[ArgValue::String("anatoly".to_string())]).unwrap_err(),
        CallError::ArgumentMismatch
    );
    assert_eq!(
        with_args
            .payload(&[ArgValue::Bytes(vec![]), ArgValue::Bytes(vec![])])
            .unwrap_err(),
        CallError::ArgumentMismatch
    );
    assert_eq!(
        without_args.payload(&[ArgValue::U8(1)]).unwrap_err(),
        CallError::ArgumentMismatch
    );
    // The values are looked at before the addresses.
    assert_eq!(
        with_args.instruction_ix(&[SIGNER], &[]).unwrap_err(),
        CallError::ArgumentMismatch
    );
}

#[test]
fn raw_builder_takes_the_payload_as_it_is() {
    let program = compile(&example_idl()).unwrap();
    let key_a = [1u8; 32];
    let key_b = [2u8; 32];
    let key_c = [3u8; 32];
    let call = program.instructions[0]
        .instruction_from_bytes(&[key_a, key_b, key_c], &[0xde, 0xad])
        .unwrap();
    assert_eq!(call.program_id, program.id());
    assert_eq!(call.data, vec![0xde, 0xad]);
    assert_eq!(call.accounts.len(), 3);
    assert_eq!(call.accounts[0].pubkey, key_a);
    assert_eq!(call.accounts[1].pubkey, key_b);
    assert_eq!(call.accounts[2].pubkey, key_c);
    assert!(call.accounts[0].is_signer && call.accounts[0].is_writable);
    assert!(!call.accounts[1].is_signer && call.accounts[1].is_writable);
    assert!(!call.accounts[2].is_signer && !call.accounts[2].is_writable);
}

#[test]
fn derived_address_is_the_programs_own() {
    let program = compile(&example_idl()).unwrap();
    let seeds: [&[u8]; 2] = [b"example", &SIGNER];
    let expected = Pubkey::find_program_address(&seeds, &Pubkey::new_from_array(program.id()));
    assert_eq!(
        program.derive_program_address_and_bump(&seeds),
        Some((expected.0.to_bytes(), expected.1))
    );
    assert_eq!(program.derive_program_address(&seeds), Some(expected.0.to_bytes()));

    let too_long: [&[u8]; 1] = [&[0u8; 33]];
    assert_eq!(program.derive_program_address_and_bump(&too_long), None);
    assert_eq!(program.derive_program_address(&too_long), None);
    let too_many: [&[u8]; 16] = [b"s"; 16];
    assert_eq!(program.derive_program_address_and_bump(&too_many), None);

    let other_seeds: [&[u8]; 1] = [b"example"];
    assert_ne!(
        program.derive_program_address(&seeds),
        program.derive_program_address(&other_seeds)
    );
    let mut idl = example_idl();
    idl.metadata = Some(IdlMetadata {
        address: Some("14grJpemFaf88c8tiVb77W7TYg2W3ir6pfkKz3YjhhZ5".to_string()),
    });
    let other_program = compile(&idl).unwrap();
    assert_ne!(
        program.derive_program_address(&seeds),
        other_program.derive_program_address(&seeds)
    );
}

#[test]
fn unreadable_document_is_malformed() {
    assert_eq!(compile_document(&None).unwrap_err(), SchemaError::MalformedSchema);
    let program = compile_document(&Some(example_idl())).unwrap();
    assert_eq!(program.name, "ExampleProgram");
    assert_eq!(program.instructions.len(), 2);
    let mut idl = example_idl();
    idl.metadata = None;
    assert_eq!(compile_document(&Some(idl)).unwrap_err(), SchemaError::MissingAddress);
}
