use kitty_poe::host::{gen_dna, gen_gender, HostCtx};
use kitty_poe::kitties::{DispatchError, Error, Event, Gender, GenesisConfig, Pallet};
use kitty_poe::ledger::BalanceError;

const ALICE: u64 = 1;
const BOB: u64 = 2;
const PLEDGE: u64 = 200;

fn ctx() -> HostCtx {
    HostCtx { entropy_gender: [0u8; 32], entropy_dna: [7u8; 32], block_number: 1 }
}

fn genesis_pallet(dna_a: [u8; 16], dna_b: [u8; 16]) -> Pallet {
    let mut pallet = Pallet::new(PLEDGE);
    pallet.ledger.set_free_balance(ALICE, 10_000);
    pallet.ledger.set_free_balance(BOB, 10_000);
    let genesis = GenesisConfig {
        kitties: vec![(ALICE, dna_a, Gender::Male), (BOB, dna_b, Gender::Female)],
    };
    genesis.build(&mut pallet).expect("genesis should mint");
    pallet
}

#[test]
fn gen_dna_matches_host_hash() {
    let c = ctx();
    let mut payload = Vec::new();
    payload.extend_from_slice(&c.entropy_dna);
    payload.extend_from_slice(&c.block_number.to_le_bytes());
    let expected = sp_io::hashing::blake2_128(&payload);
    assert_eq!(gen_dna(&c), expected);
}

#[test]
fn gen_gender_follows_entropy_parity() {
    let even = HostCtx { entropy_gender: [0u8; 32], entropy_dna: [0u8; 32], block_number: 0 };
    let odd = HostCtx { entropy_gender: [1u8; 32], entropy_dna: [0u8; 32], block_number: 0 };
    assert_eq!(gen_gender(&even), Gender::Male);
    assert_eq!(gen_gender(&odd), Gender::Female);
}

#[test]
fn breed_dna_is_reproducible() {
    let pallet_one = genesis_pallet([3u8; 16], [5u8; 16]);
    let pallet_two = genesis_pallet([3u8; 16], [5u8; 16]);
    let first = pallet_one.breed_dna(0, 1, &ctx()).expect("parents exist");
    let second = pallet_two.breed_dna(0, 1, &ctx()).expect("parents exist");
    assert_eq!(first, second);
    // and twice on the same registry with the same host inputs
    let third = pallet_one.breed_dna(0, 1, &ctx()).expect("parents exist");
    assert_eq!(first, third);
}

#[test]
fn breed_dna_selects_bits_from_parents() {
    // with parent A all ones and parent B all zeros, the child equals the seed
    let pallet = genesis_pallet([0xFFu8; 16], [0x00u8; 16]);
    let seed = gen_dna(&ctx());
    let child = pallet.breed_dna(0, 1, &ctx()).expect("parents exist");
    assert_eq!(child, seed);

    // with parent A all zeros and parent B all ones, the child is the seed inverted
    let flipped = genesis_pallet([0x00u8; 16], [0xFFu8; 16]);
    let child2 = flipped.breed_dna(0, 1, &ctx()).expect("parents exist");
    let mut inverted = [0u8; 16];
    for i in 0..16 {
        inverted[i] = !seed[i];
    }
    assert_eq!(child2, inverted);
}

#[test]
fn created_kitty_carries_derived_dna_and_gender() {
    let mut pallet = Pallet::new(PLEDGE);
    pallet.ledger.set_free_balance(ALICE, 10_000);
    let c = ctx();
    assert!(pallet.create_kitty(ALICE, &c).is_ok());
    let kitty = pallet.kitties.get(&0).expect("kitty should exist");
    assert_eq!(kitty.dna, gen_dna(&c));
    assert_eq!(kitty.gender, Gender::Male);
    assert_eq!(kitty.deposit, PLEDGE);
}

#[test]
fn transfer_moves_reserved_deposit() {
    let mut pallet = genesis_pallet([0u8; 16], [1u8; 16]);
    let alice_reserved = pallet.ledger.reserved_balance(ALICE);
    let bob_reserved = pallet.ledger.reserved_balance(BOB);
    assert!(pallet.transfer(ALICE, BOB, 0).is_ok());
    assert_eq!(pallet.ledger.reserved_balance(ALICE), alice_reserved - PLEDGE);
    assert_eq!(pallet.ledger.reserved_balance(BOB), bob_reserved + PLEDGE);
    assert_eq!(pallet.kitties.get(&0).unwrap().owner, BOB);
    assert_eq!(pallet.kitties_owned.get(&0).copied(), Some(BOB));
    assert!(pallet.events.contains(&Event::Transferred(ALICE, BOB, 0)));
}

#[test]
fn transfer_to_self_changes_nothing() {
    let mut pallet = genesis_pallet([0u8; 16], [1u8; 16]);
    let cnt = pallet.kitty_cnt;
    let alice_free = pallet.ledger.free_balance(ALICE);
    let alice_reserved = pallet.ledger.reserved_balance(ALICE);
    let events = pallet.events.len();
    assert_eq!(
        pallet.transfer(ALICE, ALICE, 0),
        Err(DispatchError::Module(Error::TransferToSelf))
    );
    assert_eq!(pallet.kitty_cnt, cnt);
    assert_eq!(pallet.ledger.free_balance(ALICE), alice_free);
    assert_eq!(pallet.ledger.reserved_balance(ALICE), alice_reserved);
    assert_eq!(pallet.events.len(), events);
    assert_eq!(pallet.kitties.get(&0).unwrap().owner, ALICE);
}

#[test]
fn sell_and_buy_moves_price_and_balances() {
    let mut pallet = genesis_pallet([0u8; 16], [1u8; 16]);
    assert!(pallet.sell_kitty(ALICE, 0, Some(100)).is_ok());
    assert!(pallet.events.contains(&Event::PriceSet(ALICE, 0, Some(100))));

    let alice_free = pallet.ledger.free_balance(ALICE);
    let bob_free = pallet.ledger.free_balance(BOB);
    let alice_reserved = pallet.ledger.reserved_balance(ALICE);
    let bob_reserved = pallet.ledger.reserved_balance(BOB);

    assert!(pallet.buy_kitty(BOB, 0, 100).is_ok());

    let kitty = pallet.kitties.get(&0).unwrap();
    assert_eq!(kitty.owner, BOB);
    assert_eq!(kitty.price, None);
    assert_eq!(pallet.ledger.free_balance(ALICE), alice_free + 100);
    assert_eq!(pallet.ledger.free_balance(BOB), bob_free - 100);
    assert_eq!(pallet.ledger.reserved_balance(ALICE), alice_reserved - PLEDGE);
    assert_eq!(pallet.ledger.reserved_balance(BOB), bob_reserved + PLEDGE);
    assert!(pallet.events.contains(&Event::Bought(BOB, ALICE, 0, 100)));
}

#[test]
fn bid_below_ask_changes_nothing() {
    let mut pallet = genesis_pallet([0u8; 16], [1u8; 16]);
    assert!(pallet.sell_kitty(ALICE, 0, Some(100)).is_ok());
    let alice_free = pallet.ledger.free_balance(ALICE);
    let bob_free = pallet.ledger.free_balance(BOB);
    let events = pallet.events.len();
    assert_eq!(
        pallet.buy_kitty(BOB, 0, 1),
        Err(DispatchError::Module(Error::KittyBidPriceTooLow))
    );
    let kitty = pallet.kitties.get(&0).unwrap();
    assert_eq!(kitty.owner, ALICE);
    assert_eq!(kitty.price, Some(100));
    assert_eq!(pallet.ledger.free_balance(ALICE), alice_free);
    assert_eq!(pallet.ledger.free_balance(BOB), bob_free);
    assert_eq!(pallet.events.len(), events);
}

#[test]
fn counter_overflow_leaves_no_reservation() {
    let mut pallet = Pallet::new(PLEDGE);
    pallet.ledger.set_free_balance(ALICE, 10_000);
    pallet.kitty_cnt = u64::MAX;
    assert_eq!(
        pallet.create_kitty(ALICE, &ctx()),
        Err(DispatchError::Module(Error::KittyCntOverflow))
    );
    assert_eq!(pallet.kitty_cnt, u64::MAX);
    assert_eq!(pallet.ledger.reserved_balance(ALICE), 0);
    assert_eq!(pallet.ledger.free_balance(ALICE), 10_000);
    assert_eq!(pallet.events.len(), 0);
}

#[test]
fn buy_fails_when_seller_balance_would_overflow() {
    let mut pallet = genesis_pallet([0u8; 16], [1u8; 16]);
    assert!(pallet.sell_kitty(ALICE, 0, Some(100)).is_ok());
    pallet.ledger.set_free_balance(ALICE, u64::MAX);
    assert_eq!(
        pallet.buy_kitty(BOB, 0, 100),
        Err(DispatchError::Balances(BalanceError::Overflow))
    );
    // nothing moved
    assert_eq!(pallet.kitties.get(&0).unwrap().owner, ALICE);
    assert_eq!(pallet.ledger.reserved_balance(BOB), PLEDGE);
}

#[test]
fn deposits_match_owned_kitties() {
    let mut pallet = genesis_pallet([0u8; 16], [1u8; 16]);
    assert!(pallet.create_kitty(ALICE, &ctx()).is_ok());
    assert!(pallet.transfer(BOB, ALICE, 1).is_ok());
    for account in [ALICE, BOB, 42u64] {
        let owned = pallet.kitties.values().filter(|k| k.owner == account).count() as u64;
        assert_eq!(pallet.ledger.reserved_balance(account), PLEDGE * owned);
    }
}

#[test]
fn poe_lifecycle() {
    let mut pallet = kitty_poe::poe::Pallet::new(6);
    let claim = vec![0, 1, 2, 3];
    assert!(pallet.create_claim(ALICE, claim.clone(), 1).is_ok());
    assert_eq!(pallet.proofs_of(&claim), Some((ALICE, 1)));
    assert_eq!(
        pallet.create_claim(ALICE, claim.clone(), 1),
        Err(kitty_poe::poe::Error::ProofAlreadyExist)
    );
    assert_eq!(
        pallet.trans_claim(BOB, claim.clone(), ALICE, 1),
        Err(kitty_poe::poe::Error::NotClaimOwner)
    );
    assert!(pallet.trans_claim(ALICE, claim.clone(), BOB, 1).is_ok());
    assert_eq!(pallet.proofs_of(&claim), Some((BOB, 1)));
    assert!(pallet.revoked_claim(BOB, claim.clone()).is_ok());
    assert_eq!(pallet.proofs_of(&claim), None);
}

#[test]
fn poe_claim_round_trip_restores_map() {
    let mut pallet = kitty_poe::poe::Pallet::new(6);
    let keep = vec![9, 9];
    let claim = vec![0, 1, 2, 3];
    assert!(pallet.create_claim(BOB, keep.clone(), 1).is_ok());
    assert!(pallet.create_claim(ALICE, claim.clone(), 2).is_ok());
    assert!(pallet.revoked_claim(ALICE, claim.clone()).is_ok());
    assert_eq!(pallet.proofs_of(&claim), None);
    assert_eq!(pallet.proofs_of(&keep), Some((BOB, 1)));
}

#[test]
fn poe_claim_length_edges() {
    let mut pallet = kitty_poe::poe::Pallet::new(6);
    // the empty claim and a claim of exactly the maximum length are accepted
    assert!(pallet.create_claim(ALICE, vec![], 1).is_ok());
    assert!(pallet.create_claim(ALICE, vec![0, 1, 2, 3, 4, 5], 1).is_ok());
    // one byte past the maximum is rejected
    assert_eq!(
        pallet.create_claim(ALICE, vec![0, 1, 2, 3, 4, 5, 6], 1),
        Err(kitty_poe::poe::Error::ClaimOverLength)
    );
}

#[test]
fn clearing_a_price_delists_the_kitty() {
    let mut pallet = genesis_pallet([0u8; 16], [1u8; 16]);
    assert!(pallet.sell_kitty(ALICE, 0, Some(100)).is_ok());
    assert!(pallet.sell_kitty(ALICE, 0, None).is_ok());
    assert!(pallet.events.contains(&Event::PriceSet(ALICE, 0, None)));
    assert_eq!(pallet.kitties.get(&0).unwrap().price, None);
    assert_eq!(
        pallet.buy_kitty(BOB, 0, 500),
        Err(DispatchError::Module(Error::KittyNotForSale))
    );
}
