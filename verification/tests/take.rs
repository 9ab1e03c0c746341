use escrow::address::Address;
use escrow::error::EscrowError;
use escrow::ledger::Ledger;
use escrow::state::{Asset, Make, RentSchedule, Take};
use escrow::{make, read, take, vault};

const MAKER: u8 = 1;
const TAKER: u8 = 2;
const MINT_A: u8 = 0xA;
const MINT_B: u8 = 0xB;

fn address(byte: u8) -> Address {
    Address::new([byte; 32])
}

fn open(asked: u64, deposit: u64, taker_holds: u64) -> Ledger {
    let mut ledger = Ledger::new(address(9), RentSchedule { record: 30, vault: 70 });
    assert!(ledger.mint_to(&address(MINT_A), &address(MAKER), deposit));
    assert!(ledger.mint_to(&address(MINT_B), &address(TAKER), taker_holds));
    assert!(ledger.airdrop(&address(MAKER), 100));
    let accounts = Make { maker: address(MAKER), mint_a: address(MINT_A), mint_b: address(MINT_B) };
    assert_eq!(make(&mut ledger, &accounts, 42, asked, deposit), Ok(()));
    ledger
}

fn accounts() -> Take {
    Take {
        taker: address(TAKER),
        maker: address(MAKER),
        seed: 42,
        mint_a: address(MINT_A),
        mint_b: address(MINT_B),
    }
}

#[test]
fn take_pays_the_maker_and_hands_the_deposit_to_the_taker() {
    let mut ledger = open(500, 1000, 800);
    assert!(ledger.mint_to(&address(MINT_B), &address(MAKER), 11));
    assert!(ledger.mint_to(&address(MINT_A), &address(TAKER), 22));
    assert!(ledger.airdrop(&address(TAKER), 5));
    assert_eq!(take(&mut ledger, &accounts()), Ok(()));
    assert_eq!(ledger.balance(&address(MAKER), &address(MINT_B)), 511);
    assert_eq!(ledger.balance(&address(TAKER), &address(MINT_B)), 300);
    assert_eq!(ledger.balance(&address(TAKER), &address(MINT_A)), 1022);
    assert_eq!(ledger.balance(&address(MAKER), &address(MINT_A)), 0);
    assert_eq!(ledger.lamports(&address(MAKER)), 30);
    assert_eq!(ledger.lamports(&address(TAKER)), 75);
    assert_eq!(read(&ledger, &address(MAKER), 42), Err(EscrowError::NotFound));
    assert_eq!(vault(&ledger, &address(MAKER), 42), Err(EscrowError::NotFound));
    assert_eq!(ledger.supply(&Asset::Token(address(MINT_A))), 1022);
    assert_eq!(ledger.supply(&Asset::Token(address(MINT_B))), 811);
    assert_eq!(ledger.supply(&Asset::Native), 105);
}

#[test]
fn take_with_exactly_what_is_asked_succeeds() {
    let mut ledger = open(500, 1000, 500);
    assert_eq!(take(&mut ledger, &accounts()), Ok(()));
    assert_eq!(ledger.balance(&address(TAKER), &address(MINT_B)), 0);
    assert_eq!(ledger.balance(&address(MAKER), &address(MINT_B)), 500);
}

#[test]
fn take_with_less_than_is_asked_fails_and_changes_nothing() {
    let mut ledger = open(500, 1000, 499);
    let before = ledger.clone();
    assert_eq!(take(&mut ledger, &accounts()), Err(EscrowError::InsufficientFunds));
    assert_eq!(ledger, before);
    assert_eq!(vault(&ledger, &address(MAKER), 42).unwrap().amount, 1000);
    assert_eq!(read(&ledger, &address(MAKER), 42).unwrap().receive_amount, 500);
    assert_eq!(ledger.balance(&address(TAKER), &address(MINT_B)), 499);
}

#[test]
fn take_by_one_who_holds_nothing_fails() {
    let mut ledger = open(1, 1000, 0);
    let before = ledger.clone();
    assert_eq!(take(&mut ledger, &accounts()), Err(EscrowError::InsufficientFunds));
    let poor = Take { taker: address(3), ..accounts() };
    assert_eq!(take(&mut ledger, &poor), Err(EscrowError::InsufficientFunds));
    assert_eq!(ledger, before);
}

#[test]
fn take_of_an_offer_that_is_not_there_fails() {
    let mut ledger = open(500, 1000, 800);
    let before = ledger.clone();
    let other_seed = Take { seed: 43, ..accounts() };
    assert_eq!(take(&mut ledger, &other_seed), Err(EscrowError::NotFound));
    let other_maker = Take { maker: address(3), ..accounts() };
    assert_eq!(take(&mut ledger, &other_maker), Err(EscrowError::NotFound));
    assert_eq!(ledger, before);
    assert_eq!(take(&mut ledger, &accounts()), Ok(()));
    assert_eq!(take(&mut ledger, &accounts()), Err(EscrowError::NotFound));
}

#[test]
fn take_with_a_mint_that_the_record_does_not_declare_fails() {
    let mut ledger = open(500, 1000, 800);
    assert!(ledger.mint_to(&address(0xC), &address(TAKER), 800));
    let before = ledger.clone();
    let wrong_b = Take { mint_b: address(0xC), ..accounts() };
    assert_eq!(take(&mut ledger, &wrong_b), Err(EscrowError::MintMismatch));
    let wrong_a = Take { mint_a: address(0xC), ..accounts() };
    assert_eq!(take(&mut ledger, &wrong_a), Err(EscrowError::MintMismatch));
    let swapped = Take { mint_a: address(MINT_B), mint_b: address(MINT_A), ..accounts() };
    assert_eq!(take(&mut ledger, &swapped), Err(EscrowError::MintMismatch));
    assert_eq!(ledger, before);
}

#[test]
fn take_without_funds_fails_for_want_of_funds_whatever_the_mints() {
    let mut ledger = open(500, 1000, 499);
    assert!(ledger.mint_to(&address(0xC), &address(TAKER), 800));
    let before = ledger.clone();
    let wrong_b = Take { mint_b: address(0xC), ..accounts() };
    assert_eq!(take(&mut ledger, &wrong_b), Err(EscrowError::InsufficientFunds));
    let wrong_a = Take { mint_a: address(0xC), ..accounts() };
    assert_eq!(take(&mut ledger, &wrong_a), Err(EscrowError::InsufficientFunds));
    assert_eq!(ledger, before);
    assert!(ledger.mint_to(&address(MINT_B), &address(TAKER), 1));
    assert_eq!(take(&mut ledger, &wrong_b), Err(EscrowError::MintMismatch));
    assert_eq!(take(&mut ledger, &accounts()), Ok(()));
}

#[test]
fn take_of_an_offer_that_asks_nothing_costs_nothing() {
    let mut ledger = open(0, 1000, 0);
    assert_eq!(take(&mut ledger, &accounts()), Ok(()));
    assert_eq!(ledger.balance(&address(TAKER), &address(MINT_A)), 1000);
    assert_eq!(ledger.balance(&address(MAKER), &address(MINT_B)), 0);
}

#[test]
fn take_by_the_maker_gives_the_deposit_back() {
    let mut ledger = open(500, 1000, 0);
    assert!(ledger.mint_to(&address(MINT_B), &address(MAKER), 500));
    let own = Take { taker: address(MAKER), ..accounts() };
    assert_eq!(take(&mut ledger, &own), Ok(()));
    assert_eq!(ledger.balance(&address(MAKER), &address(MINT_A)), 1000);
    assert_eq!(ledger.balance(&address(MAKER), &address(MINT_B)), 500);
    assert_eq!(ledger.lamports(&address(MAKER)), 100);
}

#[test]
fn take_where_both_mints_are_one_nets_the_two_payments() {
    let mut ledger = Ledger::new(address(9), RentSchedule { record: 0, vault: 0 });
    assert!(ledger.mint_to(&address(MINT_A), &address(MAKER), 1000));
    assert!(ledger.mint_to(&address(MINT_A), &address(TAKER), 600));
    let same = Make { maker: address(MAKER), mint_a: address(MINT_A), mint_b: address(MINT_A) };
    assert_eq!(make(&mut ledger, &same, 42, 500, 1000), Ok(()));
    let both = Take { mint_b: address(MINT_A), ..accounts() };
    assert_eq!(take(&mut ledger, &both), Ok(()));
    assert_eq!(ledger.balance(&address(MAKER), &address(MINT_A)), 500);
    assert_eq!(ledger.balance(&address(TAKER), &address(MINT_A)), 1100);
}

#[test]
fn take_near_the_limit_of_64_bits_does_not_overflow() {
    let mut ledger = Ledger::new(address(9), RentSchedule { record: 1, vault: 2 });
    assert!(ledger.mint_to(&address(MINT_A), &address(MAKER), u64::MAX));
    assert!(ledger.mint_to(&address(MINT_B), &address(TAKER), u64::MAX));
    assert!(ledger.airdrop(&address(MAKER), u64::MAX));
    let accounts_of_make =
        Make { maker: address(MAKER), mint_a: address(MINT_A), mint_b: address(MINT_B) };
    assert_eq!(make(&mut ledger, &accounts_of_make, 42, u64::MAX, u64::MAX), Ok(()));
    assert_eq!(take(&mut ledger, &accounts()), Ok(()));
    assert_eq!(ledger.balance(&address(MAKER), &address(MINT_B)), u64::MAX);
    assert_eq!(ledger.balance(&address(TAKER), &address(MINT_A)), u64::MAX);
    assert_eq!(ledger.lamports(&address(MAKER)), u64::MAX - 2);
    assert_eq!(ledger.lamports(&address(TAKER)), 2);
}
