use escrow::address::Address;
use escrow::error::EscrowError;
use escrow::ledger::Ledger;
use escrow::state::{Asset, Make, Refund, RentSchedule};
use escrow::{make, read, refund, vault};

const MAKER: u8 = 1;
const MINT_A: u8 = 0xA;
const MINT_B: u8 = 0xB;

fn address(byte: u8) -> Address {
    Address::new([byte; 32])
}

fn open() -> Ledger {
    let mut ledger = Ledger::new(address(9), RentSchedule { record: 30, vault: 70 });
    assert!(ledger.mint_to(&address(MINT_A), &address(MAKER), 1200));
    assert!(ledger.airdrop(&address(MAKER), 150));
    let accounts = Make { maker: address(MAKER), mint_a: address(MINT_A), mint_b: address(MINT_B) };
    assert_eq!(make(&mut ledger, &accounts, 42, 500, 1000), Ok(()));
    ledger
}

fn accounts() -> Refund {
    Refund { signer: address(MAKER), maker: address(MAKER), seed: 42 }
}

#[test]
fn refund_by_the_maker_returns_the_deposit_and_the_rent() {
    let mut ledger = open();
    assert_eq!(ledger.balance(&address(MAKER), &address(MINT_A)), 200);
    assert_eq!(ledger.lamports(&address(MAKER)), 50);
    assert_eq!(refund(&mut ledger, &accounts()), Ok(()));
    assert_eq!(ledger.balance(&address(MAKER), &address(MINT_A)), 1200);
    assert_eq!(ledger.lamports(&address(MAKER)), 150);
    assert_eq!(read(&ledger, &address(MAKER), 42), Err(EscrowError::NotFound));
    assert_eq!(vault(&ledger, &address(MAKER), 42), Err(EscrowError::NotFound));
    assert_eq!(ledger.supply(&Asset::Token(address(MINT_A))), 1200);
    assert_eq!(ledger.supply(&Asset::Native), 150);
}

#[test]
fn refund_by_another_fails_and_changes_nothing() {
    let mut ledger = open();
    let before = ledger.clone();
    let another = Refund { signer: address(2), ..accounts() };
    assert_eq!(refund(&mut ledger, &another), Err(EscrowError::Unauthorized));
    let program = Refund { signer: address(9), ..accounts() };
    assert_eq!(refund(&mut ledger, &program), Err(EscrowError::Unauthorized));
    assert_eq!(ledger, before);
    assert_eq!(vault(&ledger, &address(MAKER), 42).unwrap().amount, 1000);
    assert_eq!(ledger.balance(&address(2), &address(MINT_A)), 0);
}

#[test]
fn refund_of_an_offer_that_is_not_there_fails() {
    let mut ledger = open();
    let before = ledger.clone();
    let other_seed = Refund { seed: 7, ..accounts() };
    assert_eq!(refund(&mut ledger, &other_seed), Err(EscrowError::NotFound));
    let own_key = Refund { signer: address(2), maker: address(2), ..accounts() };
    assert_eq!(refund(&mut ledger, &own_key), Err(EscrowError::NotFound));
    assert_eq!(ledger, before);
    assert_eq!(refund(&mut ledger, &accounts()), Ok(()));
    assert_eq!(refund(&mut ledger, &accounts()), Err(EscrowError::NotFound));
}

#[test]
fn refund_frees_the_pair_for_a_new_offer() {
    let mut ledger = open();
    assert_eq!(refund(&mut ledger, &accounts()), Ok(()));
    let again = Make { maker: address(MAKER), mint_a: address(MINT_A), mint_b: address(MINT_B) };
    assert_eq!(make(&mut ledger, &again, 42, 7, 1200), Ok(()));
    assert_eq!(read(&ledger, &address(MAKER), 42).unwrap().receive_amount, 7);
    assert_eq!(vault(&ledger, &address(MAKER), 42).unwrap().amount, 1200);
}
