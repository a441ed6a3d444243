use token_ledger::{plan_init, plan_transfer, Error, Event, LedgerStore, Pallet, TOTAL_SUPPLY_DEFAULT};

const ALICE: u64 = 1;
const BOB: u64 = 2;
const CAROL: u64 = 3;

#[test]
fn default_total_supply() {
    assert_eq!(TOTAL_SUPPLY_DEFAULT, 21_000_000);
    let p = Pallet::new();
    assert_eq!(p.get_total_supply(), 21_000_000);
    assert!(!p.get_initialized());
    assert!(p.events().is_empty());
}

#[test]
fn alice_bob_scenario() {
    let mut p = Pallet::new();
    assert_eq!(p.init(ALICE), Ok(()));
    assert_eq!(p.get_balance(ALICE), 21_000_000);
    assert_eq!(p.events().last(), Some(&Event::Initialized(ALICE)));

    assert_eq!(p.transfer(ALICE, BOB, 1000), Ok(()));
    assert_eq!(p.get_balance(ALICE), 20_999_000);
    assert_eq!(p.get_balance(BOB), 1000);
    assert_eq!(p.events().last(), Some(&Event::Transfer(ALICE, BOB, 1000)));

    assert_eq!(p.transfer(BOB, ALICE, 2000), Err(Error::InsufficientFunds));
    assert_eq!(p.get_balance(ALICE), 20_999_000);
    assert_eq!(p.get_balance(BOB), 1000);
    assert_eq!(p.events().len(), 2);
}

#[test]
fn initialize_twice_fails() {
    let mut p = Pallet::new();
    assert_eq!(p.init(ALICE), Ok(()));
    assert!(p.get_initialized());
    assert_eq!(p.init(BOB), Err(Error::AlreadyInitialized));
    assert_eq!(p.init(ALICE), Err(Error::AlreadyInitialized));
    assert_eq!(p.get_balance(ALICE), 21_000_000);
    assert_eq!(p.get_balance(BOB), 0);
    assert_eq!(p.events(), &vec![Event::Initialized(ALICE)]);
}

#[test]
fn overdraft_leaves_balances() {
    let mut p = Pallet::new();
    p.init(ALICE).unwrap();
    p.transfer(ALICE, BOB, 500).unwrap();
    assert_eq!(p.transfer(BOB, CAROL, 501), Err(Error::InsufficientFunds));
    assert_eq!(p.get_balance(BOB), 500);
    assert_eq!(p.get_balance(CAROL), 0);
    assert_eq!(p.transfer(CAROL, BOB, 1), Err(Error::InsufficientFunds));
    assert_eq!(p.transfer(ALICE, BOB, u64::MAX), Err(Error::InsufficientFunds));
    assert_eq!(p.get_balance(ALICE), 21_000_000 - 500);
    assert_eq!(p.events().len(), 2);
}

#[test]
fn transfer_to_self_keeps_balance() {
    let mut p = Pallet::new();
    p.init(ALICE).unwrap();
    assert_eq!(p.transfer(ALICE, ALICE, 1000), Ok(()));
    assert_eq!(p.get_balance(ALICE), 21_000_000);
    assert_eq!(p.transfer(ALICE, ALICE, 21_000_000), Ok(()));
    assert_eq!(p.get_balance(ALICE), 21_000_000);
    assert_eq!(p.events().last(), Some(&Event::Transfer(ALICE, ALICE, 21_000_000)));
    assert_eq!(p.transfer(ALICE, ALICE, 21_000_001), Err(Error::InsufficientFunds));
    assert_eq!(p.get_balance(ALICE), 21_000_000);
}

#[test]
fn zero_transfer_always_succeeds() {
    let mut p = Pallet::new();
    assert_eq!(p.transfer(BOB, CAROL, 0), Ok(()));
    assert_eq!(p.get_balance(BOB), 0);
    assert_eq!(p.get_balance(CAROL), 0);
    assert_eq!(p.events(), &vec![Event::Transfer(BOB, CAROL, 0)]);
    p.init(ALICE).unwrap();
    assert_eq!(p.transfer(ALICE, BOB, 0), Ok(()));
    assert_eq!(p.get_balance(ALICE), 21_000_000);
    assert_eq!(p.get_balance(BOB), 0);
    assert_eq!(p.events().last(), Some(&Event::Transfer(ALICE, BOB, 0)));
    assert_eq!(p.events().len(), 3);
}

#[test]
fn transfers_conserve_supply() {
    let mut p = Pallet::new();
    p.init(ALICE).unwrap();
    p.transfer(ALICE, BOB, 7_000_000).unwrap();
    p.transfer(BOB, CAROL, 2_500_000).unwrap();
    p.transfer(CAROL, ALICE, 1).unwrap();
    p.transfer(BOB, BOB, 4_000_000).unwrap();
    assert_eq!(p.transfer(CAROL, BOB, 2_500_000), Err(Error::InsufficientFunds));
    p.transfer(CAROL, BOB, 2_499_999).unwrap();
    let sum = p.get_balance(ALICE) + p.get_balance(BOB) + p.get_balance(CAROL);
    assert_eq!(sum, p.get_total_supply());
    assert_eq!(p.get_balance(ALICE), 14_000_001);
    assert_eq!(p.get_balance(BOB), 6_999_999);
    assert_eq!(p.get_balance(CAROL), 0);
}

#[test]
fn store_reads_zero_for_absent_accounts() {
    let mut s = LedgerStore::new();
    assert_eq!(s.get_balance(ALICE), 0);
    s.set_balance(ALICE, 42);
    assert_eq!(s.get_balance(ALICE), 42);
    assert_eq!(s.get_balance(BOB), 0);
    s.set_balance(ALICE, 7);
    assert_eq!(s.get_balance(ALICE), 7);
    assert_eq!(s.get_total_supply(), 21_000_000);
    assert!(!s.get_initialized());
    s.set_initialized(true);
    assert!(s.get_initialized());
    assert_eq!(s.get_balance(ALICE), 7);
}

#[test]
fn plan_init_decides_issuance() {
    assert_eq!(plan_init(false, 21_000_000), Ok(21_000_000));
    assert_eq!(plan_init(true, 21_000_000), Err(Error::AlreadyInitialized));
}

#[test]
fn plan_transfer_decides_balances() {
    assert_eq!(plan_transfer(100, 5, false, 30), Ok((70, 35)));
    assert_eq!(plan_transfer(100, 5, false, 100), Ok((0, 105)));
    assert_eq!(plan_transfer(100, 5, false, 101), Err(Error::InsufficientFunds));
    assert_eq!(plan_transfer(100, 100, true, 30), Ok((70, 100)));
    assert_eq!(plan_transfer(0, 0, true, 1), Err(Error::InsufficientFunds));
    assert_eq!(plan_transfer(0, u64::MAX, false, 0), Ok((0, u64::MAX)));
}
