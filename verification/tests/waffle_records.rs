use waffle_maker::address::derive_waffle_address;
use waffle_maker::error::WaffleError;
use waffle_maker::store::{bytes32_eq, CreateWaffle, WaffleStore};
use waffle_maker::waffle::{creation_log_line, required_space, validate_name, Pubkey, Waffle};

const PROGRAM_ID: [u8; 32] = [7; 32];

fn signer(b: u8) -> Pubkey {
    Pubkey { bytes: [b; 32] }
}

fn ctx(b: u8) -> CreateWaffle {
    CreateWaffle { author: signer(b) }
}

#[test]
fn creation_succeeds_in_range() {
    let mut store = WaffleStore::new(PROGRAM_ID);
    assert!(store.create_waffle(&ctx(1), "Belgian".to_string()).is_ok());
    let acc = store.get(&"Belgian".to_string()).expect("record exists");
    assert_eq!(acc.waffle.name, "Belgian");
    assert_eq!(acc.waffle.author.bytes, [1; 32]);
    assert_eq!(store.len(), 1);
}

#[test]
fn boundary_lengths() {
    let mut store = WaffleStore::new(PROGRAM_ID);
    assert!(store.create_waffle(&ctx(1), "ab".to_string()).is_ok());
    assert_eq!(
        store.create_waffle(&ctx(1), "a".to_string()),
        Err(WaffleError::NameEmpty)
    );
    assert!(store.create_waffle(&ctx(1), "x".repeat(29)).is_ok());
    assert_eq!(
        store.create_waffle(&ctx(1), "x".repeat(30)),
        Err(WaffleError::NameTooLong)
    );
    assert_eq!(store.len(), 2);
}

#[test]
fn empty_name_rejected_without_effect() {
    let mut store = WaffleStore::new(PROGRAM_ID);
    assert_eq!(
        store.create_waffle(&ctx(1), String::new()),
        Err(WaffleError::NameEmpty)
    );
    assert_eq!(
        store.create_waffle(&ctx(1), "B".to_string()),
        Err(WaffleError::NameEmpty)
    );
    assert!(store.get(&"B".to_string()).is_none());
    assert_eq!(store.len(), 0);
}

#[test]
fn long_name_rejected_without_effect() {
    let mut store = WaffleStore::new(PROGRAM_ID);
    let name = "ThisNameIsWayTooLongToBeAccepted!".to_string();
    assert_eq!(name.chars().count(), 33);
    assert_eq!(
        store.create_waffle(&ctx(1), name.clone()),
        Err(WaffleError::NameTooLong)
    );
    assert!(store.get(&name).is_none());
    assert_eq!(store.len(), 0);
}

#[test]
fn validation_counts_characters_not_bytes() {
    // 29 characters but 58 UTF-8 bytes: accepted, since validation counts
    // characters.
    let name = "é".repeat(29);
    assert_eq!(name.len(), 58);
    assert!(validate_name(&name).is_ok());
    let mut store = WaffleStore::new(PROGRAM_ID);
    assert!(store.create_waffle(&ctx(4), name.clone()).is_ok());
    assert_eq!(store.get(&name).unwrap().waffle.name, name);
    // The platform cannot derive an address for it: the name's bytes exceed
    // the maximum seed length.
    assert!(derive_waffle_address(&name, &PROGRAM_ID).is_none());
}

#[test]
fn derivation_is_deterministic() {
    let a1 = derive_waffle_address("Belgian", &PROGRAM_ID).expect("derivable");
    let a2 = derive_waffle_address("Belgian", &PROGRAM_ID).expect("derivable");
    assert_eq!(a1, a2);
}

#[test]
fn derivation_uses_the_advertised_seed_scheme() {
    let pid = anchor_lang::prelude::Pubkey::new_from_array(PROGRAM_ID);
    let (expected, _bump) = anchor_lang::prelude::Pubkey::find_program_address(
        &[b"waffle", "Belgian".as_bytes()],
        &pid,
    );
    let got = derive_waffle_address("Belgian", &PROGRAM_ID).expect("derivable");
    assert_eq!(got, expected.to_bytes());
}

#[test]
fn different_names_derive_different_addresses() {
    let a = derive_waffle_address("Belgian", &PROGRAM_ID).expect("derivable");
    let b = derive_waffle_address("Liege", &PROGRAM_ID).expect("derivable");
    assert_ne!(a, b);
    assert_ne!(a, [0; 32]);
}

#[test]
fn recreation_overwrites_author() {
    let mut store = WaffleStore::new(PROGRAM_ID);
    assert!(store.create_waffle(&ctx(1), "Belgian".to_string()).is_ok());
    assert!(store.create_waffle(&ctx(2), "Belgian".to_string()).is_ok());
    let acc = store.get(&"Belgian".to_string()).expect("record exists");
    // The sharp edge: the second caller silently becomes the author.
    assert_eq!(acc.waffle.author.bytes, [2; 32]);
    assert_eq!(store.len(), 1);
}

#[test]
fn storage_is_sized_at_first_creation_only() {
    let mut store = WaffleStore::new(PROGRAM_ID);
    assert!(store.create_waffle(&ctx(1), "ab".to_string()).is_ok());
    // 8-byte discriminator + 32-byte author + 4-byte length prefix + name.
    assert_eq!(store.get(&"ab".to_string()).unwrap().space, 8 + 32 + 4 + 2);
    let mut store2 = WaffleStore::new(PROGRAM_ID);
    assert!(store2.create_waffle(&ctx(1), "éé".to_string()).is_ok());
    // Sized by the name's bytes, not its character count.
    assert_eq!(store2.get(&"éé".to_string()).unwrap().space, 8 + 32 + 4 + 4);
    // A later write under the same name keeps the original allocation.
    assert!(store2.create_waffle(&ctx(2), "éé".to_string()).is_ok());
    assert_eq!(store2.get(&"éé".to_string()).unwrap().space, 8 + 32 + 4 + 4);
}

#[test]
fn end_to_end_belgian() {
    let mut store = WaffleStore::new(PROGRAM_ID);
    assert!(store.create_waffle(&ctx(1), "Belgian".to_string()).is_ok());
    let address = derive_waffle_address("Belgian", &PROGRAM_ID).expect("derivable");
    let acc = store.get_by_address(&address).expect("located at derived address");
    assert_eq!(acc.waffle.author.bytes, [1; 32]);
    assert_eq!(acc.waffle.name, "Belgian");
    assert_eq!(store.create_waffle(&ctx(1), "B".to_string()), Err(WaffleError::NameEmpty));
    assert_eq!(
        store.create_waffle(&ctx(1), "ThisNameIsWayTooLongToBeAccepted!".to_string()),
        Err(WaffleError::NameTooLong)
    );
    // Only the one record exists; another name's address finds nothing.
    let other = derive_waffle_address("Liege", &PROGRAM_ID).expect("derivable");
    assert!(store.get_by_address(&other).is_none());
}

#[test]
fn error_messages_are_fixed() {
    assert_eq!(
        WaffleError::NameTooLong.message(),
        "Waffle name can be 30 characters long."
    );
    assert_eq!(WaffleError::NameEmpty.message(), "You need to name the Waffle.");
}

#[test]
fn validate_name_outcomes() {
    assert_eq!(validate_name(""), Err(WaffleError::NameEmpty));
    assert_eq!(validate_name("a"), Err(WaffleError::NameEmpty));
    assert!(validate_name("ab").is_ok());
    assert!(validate_name(&"x".repeat(29)).is_ok());
    assert_eq!(validate_name(&"x".repeat(30)), Err(WaffleError::NameTooLong));
}

#[test]
fn waffle_new_sets_fields() {
    let w = Waffle::new(signer(9), "Brussels".to_string());
    assert_eq!(w.author.bytes, [9; 32]);
    assert_eq!(w.name, "Brussels");
}

#[test]
fn byte_equality_of_addresses() {
    assert!(bytes32_eq(&[3; 32], &[3; 32]));
    let mut other = [3; 32];
    other[31] = 4;
    assert!(!bytes32_eq(&[3; 32], &other));
}

#[test]
fn creation_log_line_contains_the_name() {
    assert_eq!(creation_log_line("Belgian"), "Waffle Belgian created");
}

#[test]
fn required_space_counts_bytes() {
    assert_eq!(required_space("ab"), 8 + 32 + 4 + 2);
    // Two characters, four UTF-8 bytes.
    assert_eq!(required_space("éé"), 8 + 32 + 4 + 4);
}
