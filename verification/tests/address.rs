use std::str::FromStr;

use anchor_lang::prelude::Pubkey;
use funblink::{find_slot_address, DerivedAddress, Key, LIST_SEED, PROGRAM_ID};

fn owner(fill: u8) -> Key {
    [fill; 32]
}

#[test]
fn program_id_is_the_declared_program() {
    let declared = Pubkey::from_str("5Z4UkWTCAQu2sNRKkq4GcredbKuF9jGdSxG5mH7ypY6B").unwrap();
    assert_eq!(declared.to_bytes(), PROGRAM_ID);
}

#[test]
fn list_seed_spells_blink_list() {
    assert_eq!(&LIST_SEED[..], &b"blink_list"[..]);
}

#[test]
fn slot_address_of_a_known_owner() {
    let derived = find_slot_address(&owner(1)).unwrap();
    let expected: Key = [
        154, 232, 53, 210, 64, 114, 129, 249, 208, 180, 11, 229, 241, 43, 41, 109, 130, 205, 44,
        236, 101, 199, 90, 41, 119, 47, 17, 47, 12, 20, 183, 223,
    ];
    assert_eq!(derived, DerivedAddress { address: expected, bump: 254 });
}

#[test]
fn slot_address_with_the_first_bump() {
    let derived = find_slot_address(&owner(0)).unwrap();
    let expected: Key = [
        226, 174, 89, 174, 112, 123, 91, 233, 51, 233, 132, 22, 42, 112, 215, 51, 74, 215, 117,
        41, 239, 170, 95, 68, 53, 14, 222, 35, 101, 188, 124, 170,
    ];
    assert_eq!(derived, DerivedAddress { address: expected, bump: 255 });
}

#[test]
fn slot_address_is_the_program_derived_address() {
    let program = Pubkey::new_from_array(PROGRAM_ID);
    for fill in 0..=40u8 {
        let key = owner(fill);
        let (address, bump) = Pubkey::find_program_address(&[b"blink_list", &key], &program);
        let derived = find_slot_address(&key).unwrap();
        assert_eq!(derived.address, address.to_bytes());
        assert_eq!(derived.bump, bump);
    }
}

#[test]
fn slot_address_is_rederived_from_its_bump() {
    let program = Pubkey::new_from_array(PROGRAM_ID);
    let key = owner(9);
    let derived = find_slot_address(&key).unwrap();
    let again =
        Pubkey::create_program_address(&[b"blink_list", &key, &[derived.bump]], &program).unwrap();
    assert_eq!(again.to_bytes(), derived.address);
}

#[test]
fn same_owner_same_address() {
    let key = owner(77);
    assert_eq!(find_slot_address(&key), find_slot_address(&key));
    assert_eq!(find_slot_address(&key), find_slot_address(&owner(77)));
}

#[test]
fn different_owners_different_addresses() {
    let mut seen: Vec<Key> = Vec::new();
    for fill in 0..=255u8 {
        let derived = find_slot_address(&owner(fill)).unwrap();
        assert!(!seen.contains(&derived.address));
        seen.push(derived.address);
    }
}

#[test]
fn slot_address_is_not_the_owner_key() {
    for fill in 0..=20u8 {
        let key = owner(fill);
        assert_ne!(find_slot_address(&key).unwrap().address, key);
    }
}

#[test]
fn slot_address_is_off_the_curve() {
    let derived = find_slot_address(&owner(3)).unwrap();
    assert!(!Pubkey::new_from_array(derived.address).is_on_curve());
}
