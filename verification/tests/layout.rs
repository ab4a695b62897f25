use solana_idlgen::accounts::{compile_accounts, decimal_text, AccountSlot};
use solana_idlgen::address::decode_address;
use solana_idlgen::arg_types::{map_arg_type, ArgType};
use solana_idlgen::case::{to_pascal_case, to_snake_case};
use solana_idlgen::discriminator::{derive_tag, resolve_tag};
use solana_idlgen::error::SchemaError;
use solana_idlgen::idl_types::{IdlJsonAccount, IdlJsonInstruction};
use solana_sdk::hash::hash;
use solana_sdk::pubkey::Pubkey;

fn account(name: &str, is_mut: bool, is_signer: bool) -> IdlJsonAccount {
    IdlJsonAccount { name: name.to_string(), is_mut, is_signer }
}

#[test]
fn slots_follow_the_declared_order() {
    let layout = compile_accounts(&vec![
        account("signer", true, true),
        account("exampleAccount", true, false),
        account("systemProgram", false, false),
    ]);
    assert_eq!(
        layout.slots,
        vec![
            AccountSlot { index: 0, is_signer: true, is_writable: true },
            AccountSlot { index: 1, is_signer: false, is_writable: true },
            AccountSlot { index: 2, is_signer: false, is_writable: false },
        ]
    );
    assert_eq!(layout.signers, vec![0]);
}

#[test]
fn signer_is_writable_even_if_declared_immutable() {
    let layout = compile_accounts(&vec![
        account("vault", false, false),
        account("authority", false, true),
        account("payer", true, true),
    ]);
    assert_eq!(
        layout.slots,
        vec![
            AccountSlot { index: 0, is_signer: false, is_writable: false },
            AccountSlot { index: 1, is_signer: true, is_writable: true },
            AccountSlot { index: 2, is_signer: true, is_writable: true },
        ]
    );
    assert_eq!(layout.signers, vec![1, 2]);
}

#[test]
fn summaries_list_accounts_and_signers() {
    let layout = compile_accounts(&vec![
        account("signer", true, true),
        account("exampleAccount", true, false),
        account("systemProgram", false, false),
        account("cosigner", false, true),
    ]);
    assert_eq!(
        layout.accounts_doc,
        "\u{1f511} Required accounts: \n\n\
         1. signer - signer: \u{2705}, mutable: \u{2705}\n\
         2. exampleAccount - signer: \u{274c}, mutable: \u{2705}\n\
         3. systemProgram - signer: \u{274c}, mutable: \u{274c}\n\
         4. cosigner - signer: \u{2705}, mutable: \u{2705}"
    );
    assert_eq!(
        layout.signers_doc,
        "\u{270d}\u{fe0f} Required signers:\n\n\
         1. signer - signer: \u{2705}, mutable: \u{2705}\n\
         2. cosigner - signer: \u{2705}, mutable: \u{2705}"
    );
}

#[test]
fn no_accounts_gives_headings_only() {
    let layout = compile_accounts(&vec![]);
    assert!(layout.slots.is_empty());
    assert!(layout.signers.is_empty());
    assert_eq!(layout.accounts_doc, "\u{1f511} Required accounts: \n");
    assert_eq!(layout.signers_doc, "\u{270d}\u{fe0f} Required signers:\n");
}

#[test]
fn summaries_number_past_nine() {
    let accounts: Vec<IdlJsonAccount> =
        (0..12).map(|i| account(&format!("a{}", i), false, i % 2 == 1)).collect();
    let layout = compile_accounts(&accounts);
    assert!(layout.accounts_doc.ends_with("\n12. a11 - signer: \u{2705}, mutable: \u{2705}"));
    assert!(layout.accounts_doc.contains("\n10. a9 - signer: \u{2705}, mutable: \u{2705}\n"));
    assert!(layout.accounts_doc.contains("\n11. a10 - signer: \u{274c}, mutable: \u{274c}\n"));
    assert!(layout.signers_doc.ends_with("\n6. a11 - signer: \u{2705}, mutable: \u{2705}"));
    assert_eq!(layout.signers, vec![1, 3, 5, 7, 9, 11]);
}

#[test]
fn numbers_are_written_in_decimal() {
    assert_eq!(decimal_text(0), "0");
    assert_eq!(decimal_text(7), "7");
    assert_eq!(decimal_text(10), "10");
    assert_eq!(decimal_text(109), "109");
    assert_eq!(decimal_text(1234567890), "1234567890");
    assert_eq!(decimal_text(usize::MAX), usize::MAX.to_string());
}

#[test]
fn type_table_is_closed() {
    let table = [
        ("bytes", ArgType::Bytes, "Vec<u8>"),
        ("string", ArgType::String, "String"),
        ("publicKey", ArgType::PublicKey, "Pubkey"),
        ("bool", ArgType::Bool, "bool"),
        ("u8", ArgType::U8, "u8"),
        ("i8", ArgType::I8, "i8"),
        ("u16", ArgType::U16, "u16"),
        ("i16", ArgType::I16, "i16"),
        ("u32", ArgType::U32, "u32"),
        ("i32", ArgType::I32, "i32"),
        ("f32", ArgType::F32, "f32"),
        ("u64", ArgType::U64, "u64"),
        ("i64", ArgType::I64, "i64"),
        ("f64", ArgType::F64, "f64"),
        ("u128", ArgType::U128, "u128"),
        ("i128", ArgType::I128, "i128"),
        ("u256", ArgType::U256, "u256"),
        ("i256", ArgType::I256, "i256"),
    ];
    for (name, arg_type, rust_type) in table {
        assert_eq!(map_arg_type(name), Ok(arg_type));
        assert_eq!(arg_type.rust_type(), rust_type);
    }
    for name in ["", "Bytes", "pubkey", "publickey", "usize", "u512", "vec", "bytes ", "String"] {
        assert_eq!(map_arg_type(name), Err(SchemaError::UnsupportedType(name.to_string())));
    }
}

#[test]
fn error_messages() {
    assert_eq!(
        SchemaError::MissingAddress.message(),
        "Please make sure to define the program address in the metadata: address field."
    );
    assert_eq!(SchemaError::InvalidAddress.message(), "Invalid program address");
    assert_eq!(
        SchemaError::UnsupportedType("u512".to_string()).message(),
        "Type \"u512\" not implemented yet"
    );
    assert_eq!(SchemaError::MalformedSchema.message(), "Malformed interface description");
}

#[test]
fn derived_tag_is_digest_prefix() {
    let expected: Vec<u8> = hash(b"global:example").to_bytes()[0..8].to_vec();
    assert_eq!(derive_tag("example"), expected);
    assert_ne!(derive_tag("example"), b"example\0".to_vec());
    assert_eq!(derive_tag("initialize"), vec![175, 175, 109, 31, 13, 152, 155, 237]);
    assert_eq!(derive_tag(""), hash(b"global:").to_bytes()[0..8].to_vec());
    assert_eq!(
        derive_tag("\u{fc}ber"),
        hash("global:\u{fc}ber".as_bytes()).to_bytes()[0..8].to_vec()
    );
}

#[test]
fn declared_tag_wins_over_derived() {
    let mut ix = IdlJsonInstruction {
        name: "example".to_string(),
        accounts: vec![],
        args: None,
        discriminator: Some(vec![]),
    };
    assert_eq!(resolve_tag(&ix), Vec::<u8>::new());
    ix.discriminator = Some(vec![1, 2, 3, 4, 5, 6, 7, 8, 9, 10]);
    assert_eq!(resolve_tag(&ix), vec![1, 2, 3, 4, 5, 6, 7, 8, 9, 10]);
    ix.discriminator = None;
    assert_eq!(resolve_tag(&ix), derive_tag("example"));
}

#[test]
fn address_decodes_from_base58() {
    assert_eq!(decode_address("11111111111111111111111111111111"), Some([0u8; 32]));
    let text = "14grJpemFaf88c8tiVb77W7TYg2W3ir6pfkKz3YjhhZ5";
    let key = decode_address(text).unwrap();
    assert_eq!(Pubkey::new_from_array(key).to_string(), text);
    assert_eq!(decode_address("1111111111111111111111111111111"), None);
    assert_eq!(decode_address("111111111111111111111111111111111"), None);
    assert_eq!(decode_address("l1111111111111111111111111111111"), None);
    assert_eq!(decode_address(""), None);
}

#[test]
fn names_are_recased() {
    assert_eq!(to_pascal_case("example"), "Example");
    assert_eq!(to_pascal_case("exampleTwo"), "ExampleTwo");
    assert_eq!(to_pascal_case("example_two"), "ExampleTwo");
    assert_eq!(to_pascal_case("my token-program"), "MyTokenProgram");
    assert_eq!(to_snake_case("example"), "example");
    assert_eq!(to_snake_case("exampleTwo"), "example_two");
    assert_eq!(to_snake_case("ExampleTwo"), "example_two");
    assert_eq!(to_snake_case("example_two"), "example_two");
    assert_eq!(to_snake_case("systemProgram"), "system_program");
}
