use kitty_poe::host::HostCtx;
use kitty_poe::kitties::{DispatchError, Error, Event, Gender, GenesisConfig, Pallet};
use kitty_poe::ledger::BalanceError;

const ALICE: u64 = 1;
const BOB: u64 = 2;
const COCO: u64 = 3;
const PLEDGE: u64 = 200;

fn ctx() -> HostCtx {
    HostCtx { entropy_gender: [0u8; 32], entropy_dna: [7u8; 32], block_number: 1 }
}

fn endowed_pallet() -> Pallet {
    let mut pallet = Pallet::new(PLEDGE);
    pallet.ledger.set_free_balance(ALICE, 10_000);
    pallet.ledger.set_free_balance(BOB, 10_000);
    pallet
}

fn new_test_ext() -> Pallet {
    let mut pallet = endowed_pallet();
    let genesis = GenesisConfig {
        kitties: vec![(ALICE, [0u8; 16], Gender::Male), (BOB, [1u8; 16], Gender::Female)],
    };
    genesis.build(&mut pallet).expect("genesis should mint");
    pallet
}

fn new_test_ext_for_create() -> Pallet {
    endowed_pallet()
}

#[test]
fn should_build_genesis_kitties() {
    let pallet = new_test_ext();
    // Check we have 2 kitties, as specified
    assert_eq!(pallet.kitty_cnt, 2);

    // Check owners own the correct amount of kitties
    let kitties_owned_by_1 = pallet.kitties_owned.get(&0).copied();
    assert_eq!(kitties_owned_by_1, Some(ALICE));

    let kitties_owned_by_2 = pallet.kitties_owned.get(&1).copied();
    assert_eq!(kitties_owned_by_2, Some(BOB));

    // Check that kitties are owned correctly
    let kitty1 = pallet.kitties.get(&0).expect("Could have this kitty ID owned by acct 1");
    assert_eq!(kitty1.owner, ALICE);

    let kitty2 = pallet.kitties.get(&1).expect("Could have this kitty ID owned by acct 2");
    assert_eq!(kitty2.owner, BOB);
}

#[test]
fn create_kitty_error_by_insufficient_balance() {
    let mut pallet = new_test_ext_for_create();
    assert_eq!(
        pallet.create_kitty(COCO, &ctx()),
        Err(DispatchError::Balances(BalanceError::InsufficientBalance))
    );
}

#[test]
fn create_kitty_error_by_kitty_cnt_overflow() {
    let mut pallet = new_test_ext_for_create();
    pallet.kitty_cnt = u64::MAX;
    assert_eq!(
        pallet.create_kitty(ALICE, &ctx()),
        Err(DispatchError::Module(Error::KittyCntOverflow))
    );
}

#[test]
fn create_kitty_should_work() {
    let mut pallet = new_test_ext_for_create();

    assert!(pallet.create_kitty(ALICE, &ctx()).is_ok());

    assert!(pallet.events.contains(&Event::Created(ALICE, 0)));

    assert_eq!(pallet.kitty_cnt, 1);

    // check that account ALICE owns 1 kitty
    assert_eq!(pallet.kitties_owned.get(&0).copied(), Some(ALICE));

    // check that this kitty is specifically owned by account ALICE
    let kitty = pallet.kitties.get(&0).expect("should found the kitty");
    assert_eq!(kitty.owner, ALICE);
    assert_eq!(kitty.price, None);

    // check ALICE's reserved balance after creating the new kitty
    assert_eq!(PLEDGE, pallet.ledger.reserved_balance(ALICE));
}

#[test]
fn transfer_kitty_error_by_kitty_not_exist() {
    let mut pallet = new_test_ext();
    // should fail, kitty does not exist
    assert_eq!(
        pallet.transfer(ALICE, BOB, 3),
        Err(DispatchError::Module(Error::KittyNotExist))
    );
}

#[test]
fn transfer_kitty_error_by_kitty_not_owner() {
    let mut pallet = new_test_ext();
    // should fail, ALICE does not own kitty 1
    assert_eq!(
        pallet.transfer(ALICE, BOB, 1),
        Err(DispatchError::Module(Error::NotKittyOwner))
    );
}

#[test]
fn transfer_kitty_error_by_transfer_to_self() {
    let mut pallet = new_test_ext();
    // should fail, cannot transfer to self
    assert_eq!(
        pallet.transfer(ALICE, ALICE, 0),
        Err(DispatchError::Module(Error::TransferToSelf))
    );
}

#[test]
fn transfer_kitty_should_work() {
    let mut pallet = new_test_ext();
    assert!(pallet.transfer(ALICE, BOB, 0).is_ok());

    assert!(pallet.events.contains(&Event::Transferred(ALICE, BOB, 0)));

    assert_eq!(pallet.kitties_owned.get(&0).copied(), Some(BOB));
    let kitty = pallet.kitties.get(&0).expect("should found the kitty");
    assert_eq!(kitty.owner, BOB);
}

#[test]
fn sell_kitty_unit_error_by_kitty_not_exist() {
    let mut pallet = new_test_ext();
    // should fail, kitty does not exist
    assert_eq!(
        pallet.sell_kitty(ALICE, 3, Some(500)),
        Err(DispatchError::Module(Error::KittyNotExist))
    );
}

#[test]
fn sell_kitty_unit_error_by_kitty_not_owner() {
    let mut pallet = new_test_ext();
    // should fail, ALICE does not own kitty 1
    assert_eq!(
        pallet.sell_kitty(ALICE, 1, Some(500)),
        Err(DispatchError::Module(Error::NotKittyOwner))
    );
}

#[test]
fn sell_kitty_should_work() {
    let mut pallet = new_test_ext();

    assert!(pallet.sell_kitty(ALICE, 0, Some(500)).is_ok());

    assert!(pallet.events.contains(&Event::PriceSet(ALICE, 0, Some(500))));

    let kitty = pallet.kitties.get(&0).expect("should found the kitty");
    assert_eq!(kitty.price, Some(500));
}

#[test]
fn buy_kitty_unit_error_by_buyer_is_kitty_owner() {
    let mut pallet = new_test_ext();
    assert_eq!(
        pallet.buy_kitty(ALICE, 0, 500),
        Err(DispatchError::Module(Error::BuyerIsKittyOwner))
    );
}

#[test]
fn buy_kitty_unit_error_by_kitty_not_for_sale() {
    let mut pallet = new_test_ext();
    assert_eq!(
        pallet.buy_kitty(BOB, 0, 500),
        Err(DispatchError::Module(Error::KittyNotForSale))
    );
}

#[test]
fn buy_kitty_unit_error_by_kitty_not_exist() {
    let mut pallet = new_test_ext();
    assert_eq!(
        pallet.buy_kitty(BOB, 2, 500),
        Err(DispatchError::Module(Error::KittyNotExist))
    );
}

#[test]
fn buy_kitty_unit_error_by_kitty_bid_price_too_low() {
    let mut pallet = new_test_ext();

    assert!(pallet.sell_kitty(ALICE, 0, Some(100)).is_ok());

    assert_eq!(
        pallet.buy_kitty(BOB, 0, 1),
        Err(DispatchError::Module(Error::KittyBidPriceTooLow))
    );
}

#[test]
fn buy_kitty_unit_error_by_not_enough_balance() {
    let mut pallet = new_test_ext();

    assert!(pallet.sell_kitty(ALICE, 0, Some(100)).is_ok());

    assert_eq!(
        pallet.buy_kitty(BOB, 0, u64::MAX),
        Err(DispatchError::Module(Error::NotEnoughBalance))
    );
}

#[test]
fn buy_kitty_should_work() {
    let mut pallet = new_test_ext();

    // set price
    assert!(pallet.sell_kitty(ALICE, 0, Some(100)).is_ok());

    assert!(pallet.buy_kitty(BOB, 0, 100).is_ok());

    assert!(pallet.events.contains(&Event::Bought(BOB, ALICE, 0, 100)));

    assert!(pallet.sell_kitty(BOB, 0, Some(100)).is_ok());

    assert!(pallet.buy_kitty(ALICE, 0, 1000).is_ok());

    assert!(pallet.events.contains(&Event::Bought(ALICE, BOB, 0, 1000)));

    // check kitty information
    let kitty = pallet.kitties.get(&0).expect("should found the kitty");
    assert_eq!(kitty.owner, ALICE);
    assert_eq!(kitty.price, None);
}

#[test]
fn breed_kitty_error_by_kitty_not_exist() {
    let mut pallet = new_test_ext();
    assert_eq!(
        pallet.breed_kitty(ALICE, 0, 2, &ctx()),
        Err(DispatchError::Module(Error::KittyNotExist))
    );
}

#[test]
fn breed_kitty_error_by_kitty_not_owner() {
    let mut pallet = new_test_ext();
    assert_eq!(
        pallet.breed_kitty(ALICE, 0, 1, &ctx()),
        Err(DispatchError::Module(Error::NotKittyOwner))
    );
}

#[test]
fn breed_kitty_should_work() {
    let mut pallet = new_test_ext();

    assert!(pallet.transfer(BOB, ALICE, 1).is_ok());

    // should work
    assert!(pallet.breed_kitty(ALICE, 0, 1, &ctx()).is_ok());

    // Event log
    assert!(pallet.events.contains(&Event::BreedKitty(ALICE, 0, 1, 2)));

    // check the new kitty
    let kitty = pallet.kitties.get(&2).expect("should found the kitty");
    assert_eq!(kitty.price, None);
    assert_eq!(kitty.owner, ALICE);
}
