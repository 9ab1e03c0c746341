use anchor_lang::prelude::Pubkey;
use escrow::address::{locate, Address};
use escrow::derive::{
    locate_authority, locate_escrow, locate_vault, AUTHORITY_TAG, ESCROW_TAG, VAULT_TAG,
};

fn address(byte: u8) -> Address {
    Address::new([byte; 32])
}

#[test]
fn tags_spell_their_names() {
    assert_eq!(&ESCROW_TAG, b"escrow");
    assert_eq!(&VAULT_TAG, b"vault");
    assert_eq!(&AUTHORITY_TAG, b"auth");
}

#[test]
fn locate_agrees_with_the_runtime_derivation() {
    let program = address(7);
    let seeds: Vec<Vec<u8>> = vec![b"anything".to_vec(), vec![3u8; 5]];
    let (found, bump) = locate(&seeds, &program).expect("an address is found");
    let (key, key_bump) =
        Pubkey::find_program_address(&[b"anything", &[3u8; 5]], &Pubkey::new_from_array([7u8; 32]));
    assert_eq!(found.bytes, key.to_bytes());
    assert_eq!(bump, key_bump);
    assert_ne!(found, program);
}

#[test]
fn locate_gives_the_same_address_each_time_and_another_for_other_seeds() {
    let program = address(7);
    let one: Vec<Vec<u8>> = vec![vec![1u8]];
    let two: Vec<Vec<u8>> = vec![vec![2u8]];
    assert_eq!(locate(&one, &program), locate(&one, &program));
    assert_ne!(locate(&one, &program), locate(&two, &program));
    assert_ne!(locate(&one, &program), locate(&one, &address(8)));
}

#[test]
fn locate_finds_nothing_for_a_seed_of_33_bytes() {
    let seeds: Vec<Vec<u8>> = vec![vec![0u8; 33]];
    assert_eq!(locate(&seeds, &address(7)), None);
}

#[test]
fn locate_finds_nothing_for_16_seeds() {
    let seeds: Vec<Vec<u8>> = vec![vec![1u8]; 16];
    assert_eq!(locate(&seeds, &address(7)), None);
    let fewer: Vec<Vec<u8>> = vec![vec![1u8]; 15];
    assert!(locate(&fewer, &address(7)).is_some());
}

#[test]
fn record_address_comes_from_tag_maker_and_seed() {
    let program = Pubkey::new_from_array([9u8; 32]);
    let maker = [1u8; 32];
    let seed = 42u64;
    let (key, bump) =
        Pubkey::find_program_address(&[b"escrow", &maker, &seed.to_le_bytes()], &program);
    let found = locate_escrow(&address(9), &address(1), seed);
    assert_eq!(found, Some((Address::new(key.to_bytes()), bump)));
    assert_ne!(found, locate_escrow(&address(9), &address(1), 43));
    assert_ne!(found, locate_escrow(&address(9), &address(2), seed));
}

#[test]
fn seed_enters_the_record_address_in_little_endian() {
    let program = Pubkey::new_from_array([9u8; 32]);
    let maker = [1u8; 32];
    let seed = 0x0102_0304_0506_0708u64;
    let (key, _) = Pubkey::find_program_address(
        &[b"escrow", &maker, &[8u8, 7, 6, 5, 4, 3, 2, 1]],
        &program,
    );
    let found = locate_escrow(&address(9), &address(1), seed).expect("an address is found");
    assert_eq!(found.0.bytes, key.to_bytes());
}

#[test]
fn vault_and_authority_come_from_the_record_address() {
    let program = Pubkey::new_from_array([9u8; 32]);
    let record = [5u8; 32];
    let (vault, _) = Pubkey::find_program_address(&[b"vault", &record], &program);
    let (authority, _) = Pubkey::find_program_address(&[b"auth", &record], &program);
    assert_eq!(locate_vault(&address(9), &address(5)), Some(Address::new(vault.to_bytes())));
    assert_eq!(
        locate_authority(&address(9), &address(5)),
        Some(Address::new(authority.to_bytes()))
    );
    assert_ne!(vault, authority);
}

#[test]
fn same_tells_addresses_apart_by_any_byte() {
    let one = address(1);
    assert!(one.same(&address(1)));
    assert!(!one.same(&address(2)));
    let mut bytes = [1u8; 32];
    bytes[31] = 2;
    assert!(!one.same(&Address::new(bytes)));
    bytes[31] = 1;
    bytes[0] = 0;
    assert!(!one.same(&Address::new(bytes)));
    assert_eq!(one.to_vec(), vec![1u8; 32]);
}
