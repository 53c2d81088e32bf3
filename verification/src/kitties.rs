//! The kitty registry: mint, transfer, price-list, buy and breed unique
//! tokens, each backed by a fixed deposit reserved on its owner.
//!
//! Every public operation is a deterministic, all-or-nothing transition: its
//! contract equates the new state and the returned outcome with a pure
//! specification function of the old state and the arguments, and on any
//! error the state (storage, ledger and event log alike) is left untouched.

use crate::host::{dna_of, gen_dna, gen_gender, gender_of, HostCtx};
use crate::ledger::{
    free_of, free_transfer_spec, repatriate_reserved_spec, reserve_spec, AccountData, BalanceError,
    Ledger,
};
use std::collections::HashMap;
use vstd::prelude::*;

verus! {

broadcast use vstd::std_specs::hash::group_hash_axioms;

/// A kitty's gender, decided by the host entropy at minting.
#[derive(Clone, Copy, PartialEq, Eq, Structural, Debug)]
pub enum Gender {
    Male,
    Female,
}

/// One token: its DNA fingerprint, asking price (absent when not for sale),
/// gender, owner, and the deposit reserved on the owner for it.
#[derive(Clone, Copy, Debug)]
pub struct Kitty {
    pub dna: [u8; 16],
    pub price: Option<u64>,
    pub gender: Gender,
    pub owner: u64,
    pub deposit: u64,
}

/// The registry's mathematical image of one token; DNA as a plain byte sequence.
#[verifier::ext_equal]
pub ghost struct KittyM {
    pub dna: Seq<u8>,
    pub price: Option<u64>,
    pub gender: Gender,
    pub owner: u64,
    pub deposit: u64,
}

impl View for Kitty {
    type V = KittyM;

    open spec fn view(&self) -> KittyM {
        KittyM {
            dna: self.dna@,
            price: self.price,
            gender: self.gender,
            owner: self.owner,
            deposit: self.deposit,
        }
    }
}

/// The registry's own failure conditions.
#[derive(Clone, Copy, PartialEq, Eq, Structural, Debug)]
pub enum Error {
    /// An account cannot own more kitties than the configured cap (declared
    /// for compatibility; no dispatch path raises it).
    ExceedMaxKittyOwned,
    /// A buyer cannot be the owner.
    BuyerIsKittyOwner,
    /// A kitty cannot be transferred to its owner.
    TransferToSelf,
    /// The kitty does not exist.
    KittyNotExist,
    /// The caller does not own the kitty.
    NotKittyOwner,
    /// The kitty is not for sale.
    KittyNotForSale,
    /// The bid is below the asking price.
    KittyBidPriceTooLow,
    /// The buyer's free balance cannot cover the bid.
    NotEnoughBalance,
    /// The kitty counter cannot be incremented.
    KittyCntOverflow,
}

/// A dispatch outcome: the registry's own error, or one passed through from a
/// balance operation.
#[derive(Clone, Copy, PartialEq, Eq, Structural, Debug)]
pub enum DispatchError {
    Module(Error),
    Balances(BalanceError),
}

/// What the registry tells the host's event log.
#[derive(Clone, Copy, PartialEq, Eq, Debug)]
pub enum Event {
    /// A kitty was created: owner, new id.
    Created(u64, u64),
    /// A price was set: owner, id, new asking price.
    PriceSet(u64, u64, Option<u64>),
    /// A kitty changed hands directly: from, to, id.
    Transferred(u64, u64, u64),
    /// A kitty was bought: buyer, seller, id, bid.
    Bought(u64, u64, u64, u64),
    /// Two kitties were bred: owner, parents, new id.
    BreedKitty(u64, u64, u64, u64),
}

/// The registry's full observable state as one mathematical value: the
/// counter, both storage maps, the ledger, the event log, and the
/// host-configured pledge.
#[verifier::ext_equal]
pub ghost struct KittyState {
    pub cnt: u64,
    pub kitties: Map<u64, KittyM>,
    pub owners: Map<u64, u64>,
    pub balances: Map<u64, AccountData>,
    pub events: Seq<Event>,
    pub pledge: u64,
}

/// The mathematical image of the kitty storage map.
pub open spec fn kitty_models(m: Map<u64, Kitty>) -> Map<u64, KittyM> {
    m.map_values(|k: Kitty| k@)
}

/// The ids of the kitties `a` owns under `s`.
pub open spec fn owned_ids(s: KittyState, a: u64) -> Set<u64> {
    s.kitties.dom().filter(|id: u64| s.kitties[id].owner == a)
}

/// Structural well-formedness between operations: finitely many kitties,
/// every id below the counter, the owner index mirroring the records, and
/// every deposit equal to the pledge.
pub open spec fn wf(s: KittyState) -> bool {
    &&& s.kitties.dom().finite()
    &&& forall|id: u64| #[trigger] s.kitties.contains_key(id) ==> id < s.cnt
    &&& forall|id: u64| #[trigger] s.owners.contains_key(id) ==> s.kitties.contains_key(id)
    &&& forall|id: u64|
        #[trigger] s.kitties.contains_key(id) ==> s.owners.contains_key(id) && s.owners[id]
            == s.kitties[id].owner
    &&& forall|id: u64| #[trigger] s.kitties.contains_key(id) ==> s.kitties[id].deposit == s.pledge
}

/// Deposit conservation: the reserved balance of every account equals the
/// pledge times the number of kitties it owns.
pub open spec fn deposits_conserved(s: KittyState) -> bool {
    forall|a: u64|
        crate::ledger::reserved_of(s.balances, a) == s.pledge * (#[trigger] owned_ids(s, a)).len()
}

pub proof fn lemma_kitty_models_insert(m: Map<u64, Kitty>, id: u64, k: Kitty)
    ensures
        kitty_models(m.insert(id, k)) == kitty_models(m).insert(id, k@),
{
    assert(kitty_models(m.insert(id, k)) =~= kitty_models(m).insert(id, k@));
}

/// The kitty registry: the counter, both storage maps, the ledger it draws
/// deposits from, its event log, and the host-configured pledge.
pub struct Pallet {
    pub kitty_cnt: u64,
    pub kitties: HashMap<u64, Kitty>,
    pub kitties_owned: HashMap<u64, u64>,
    pub ledger: Ledger,
    pub events: Vec<Event>,
    pub pledge: u64,
}

impl View for Pallet {
    type V = KittyState;

    open spec fn view(&self) -> KittyState {
        KittyState {
            cnt: self.kitty_cnt,
            kitties: kitty_models(self.kitties@),
            owners: self.kitties_owned@,
            balances: self.ledger@,
            events: self.events@,
            pledge: self.pledge,
        }
    }
}

/// What minting does: reserve the pledge on `owner`, then assign the next id
/// to a fresh kitty.  A reservation error takes precedence over counter
/// overflow; on any error nothing changes.
pub open spec fn mint_spec(s: KittyState, owner: u64, dna: Seq<u8>, gender: Gender) -> (
    KittyState,
    Result<u64, DispatchError>,
) {
    match reserve_spec(s.balances, owner, s.pledge) {
        Err(e) => (s, Err(DispatchError::Balances(e))),
        Ok(b1) => {
            if s.cnt == u64::MAX {
                (s, Err(DispatchError::Module(Error::KittyCntOverflow)))
            } else {
                let id = s.cnt;
                let k = KittyM { dna, price: None, gender, owner, deposit: s.pledge };
                (
                    KittyState {
                        cnt: (s.cnt + 1) as u64,
                        kitties: s.kitties.insert(id, k),
                        owners: s.owners.insert(id, owner),
                        balances: b1,
                        events: s.events,
                        pledge: s.pledge,
                    },
                    Ok(id),
                )
            }
        },
    }
}

/// The purchase branch of `exchange`: repatriate the deposit to the buyer,
/// check the buyer's free balance, pay the seller, then hand the kitty over.
pub open spec fn purchase_spec(s: KittyState, kitty_id: u64, who: u64, bid: u64) -> (
    KittyState,
    Result<(), DispatchError>,
) {
    let k = s.kitties[kitty_id];
    match repatriate_reserved_spec(s.balances, k.owner, who, k.deposit) {
        Err(e) => (s, Err(DispatchError::Balances(e))),
        Ok(b1) => {
            if free_of(b1, who) < bid {
                (s, Err(DispatchError::Module(Error::NotEnoughBalance)))
            } else {
                match free_transfer_spec(b1, who, k.owner, bid) {
                    Err(e) => (s, Err(DispatchError::Balances(e))),
                    Ok(b2) => (
                        KittyState {
                            cnt: s.cnt,
                            kitties: s.kitties.insert(
                                kitty_id,
                                KittyM {
                                    dna: k.dna,
                                    price: None,
                                    gender: k.gender,
                                    owner: who,
                                    deposit: k.deposit,
                                },
                            ),
                            owners: s.owners.insert(kitty_id, who),
                            balances: b2,
                            events: s.events.push(Event::Bought(who, k.owner, kitty_id, bid)),
                            pledge: s.pledge,
                        },
                        Ok(()),
                    ),
                }
            }
        },
    }
}

/// What the unified mutator does.  Three modes: transfer (the owner names a
/// recipient), set price (the owner names none), purchase (a non-owner bids).
pub open spec fn exchange_spec(
    s: KittyState,
    kitty_id: u64,
    who: u64,
    to: Option<u64>,
    price: Option<u64>,
) -> (KittyState, Result<(), DispatchError>) {
    if !s.kitties.contains_key(kitty_id) {
        (s, Err(DispatchError::Module(Error::KittyNotExist)))
    } else {
        let k = s.kitties[kitty_id];
        if k.owner == who {
            match to {
                Some(new_owner) => {
                    if new_owner == who {
                        (s, Err(DispatchError::Module(Error::TransferToSelf)))
                    } else {
                        match repatriate_reserved_spec(s.balances, k.owner, new_owner, k.deposit) {
                            Err(e) => (s, Err(DispatchError::Balances(e))),
                            Ok(b1) => (
                                KittyState {
                                    cnt: s.cnt,
                                    kitties: s.kitties.insert(
                                        kitty_id,
                                        KittyM {
                                            dna: k.dna,
                                            price: None,
                                            gender: k.gender,
                                            owner: new_owner,
                                            deposit: k.deposit,
                                        },
                                    ),
                                    owners: s.owners.insert(kitty_id, new_owner),
                                    balances: b1,
                                    events: s.events.push(
                                        Event::Transferred(who, new_owner, kitty_id),
                                    ),
                                    pledge: s.pledge,
                                },
                                Ok(()),
                            ),
                        }
                    }
                },
                None => (
                    KittyState {
                        cnt: s.cnt,
                        kitties: s.kitties.insert(
                            kitty_id,
                            KittyM {
                                dna: k.dna,
                                price,
                                gender: k.gender,
                                owner: k.owner,
                                deposit: k.deposit,
                            },
                        ),
                        owners: s.owners,
                        balances: s.balances,
                        events: s.events.push(Event::PriceSet(who, kitty_id, price)),
                        pledge: s.pledge,
                    },
                    Ok(()),
                ),
            }
        } else {
            match price {
                None => (s, Err(DispatchError::Module(Error::NotKittyOwner))),
                Some(bid) => match k.price {
                    None => (s, Err(DispatchError::Module(Error::KittyNotForSale))),
                    Some(ask) => {
                        if ask > bid {
                            (s, Err(DispatchError::Module(Error::KittyBidPriceTooLow)))
                        } else {
                            purchase_spec(s, kitty_id, who, bid)
                        }
                    },
                },
            }
        }
    }
}

/// What `create_kitty` does: mint with derived DNA and gender, then report.
pub open spec fn create_kitty_spec(s: KittyState, sender: u64, ctx: HostCtx) -> (
    KittyState,
    Result<(), DispatchError>,
) {
    let sr = mint_spec(s, sender, dna_of(ctx), gender_of(ctx));
    match sr.1 {
        Err(e) => (s, Err(e)),
        Ok(id) => (
            KittyState {
                cnt: sr.0.cnt,
                kitties: sr.0.kitties,
                owners: sr.0.owners,
                balances: sr.0.balances,
                events: sr.0.events.push(Event::Created(sender, id)),
                pledge: sr.0.pledge,
            },
            Ok(()),
        ),
    }
}

/// What `sell_kitty` does: only the owner of an existing kitty may set (or
/// clear) its asking price.
pub open spec fn sell_kitty_spec(s: KittyState, sender: u64, kitty_id: u64, new_price: Option<u64>) -> (
    KittyState,
    Result<(), DispatchError>,
) {
    if !s.kitties.contains_key(kitty_id) {
        (s, Err(DispatchError::Module(Error::KittyNotExist)))
    } else if s.kitties[kitty_id].owner != sender {
        (s, Err(DispatchError::Module(Error::NotKittyOwner)))
    } else {
        exchange_spec(s, kitty_id, sender, None, new_price)
    }
}

/// What `buy_kitty` does: a non-owner bids on an existing kitty.
pub open spec fn buy_kitty_spec(s: KittyState, buyer: u64, kitty_id: u64, bid_price: u64) -> (
    KittyState,
    Result<(), DispatchError>,
) {
    if !s.kitties.contains_key(kitty_id) {
        (s, Err(DispatchError::Module(Error::KittyNotExist)))
    } else if s.kitties[kitty_id].owner == buyer {
        (s, Err(DispatchError::Module(Error::BuyerIsKittyOwner)))
    } else {
        exchange_spec(s, kitty_id, buyer, None, Some(bid_price))
    }
}

/// What `transfer` does: hand a kitty (and its reserved deposit) to another
/// account.  A self-transfer is rejected before the kitty is looked up.
pub open spec fn transfer_spec(s: KittyState, from: u64, to: u64, kitty_id: u64) -> (
    KittyState,
    Result<(), DispatchError>,
) {
    if from == to {
        (s, Err(DispatchError::Module(Error::TransferToSelf)))
    } else {
        exchange_spec(s, kitty_id, from, Some(to), None)
    }
}

/// One byte of a child's DNA: each bit comes from parent `a` where the seed
/// bit is set, from parent `b` where it is clear.
pub open spec fn breed_byte(s: u8, a: u8, b: u8) -> u8 {
    (s & a) | (!s & b)
}

/// A child's DNA from two parents' DNA and a 16-byte seed.
pub open spec fn breed_dna_spec(d1: Seq<u8>, d2: Seq<u8>, seed: Seq<u8>) -> Seq<u8> {
    Seq::new(16, |i: int| breed_byte(seed[i], d1[i], d2[i]))
}

/// What `breed_dna` returns: the bred DNA of two existing kitties, seeded by
/// freshly derived DNA.
pub open spec fn breed_dna_res_spec(s: KittyState, kid1: u64, kid2: u64, ctx: HostCtx) -> Result<
    Seq<u8>,
    Error,
> {
    if !s.kitties.contains_key(kid1) {
        Err(Error::KittyNotExist)
    } else if !s.kitties.contains_key(kid2) {
        Err(Error::KittyNotExist)
    } else {
        Ok(breed_dna_spec(s.kitties[kid1].dna, s.kitties[kid2].dna, dna_of(ctx)))
    }
}

/// What `breed_kitty` does: the sender must own both parents (existence is
/// checked before ownership, one parent at a time); the child is minted with
/// bred DNA and derived gender.
pub open spec fn breed_kitty_spec(s: KittyState, sender: u64, kid1: u64, kid2: u64, ctx: HostCtx) -> (
    KittyState,
    Result<(), DispatchError>,
) {
    if !s.kitties.contains_key(kid1) {
        (s, Err(DispatchError::Module(Error::KittyNotExist)))
    } else if s.kitties[kid1].owner != sender {
        (s, Err(DispatchError::Module(Error::NotKittyOwner)))
    } else if !s.kitties.contains_key(kid2) {
        (s, Err(DispatchError::Module(Error::KittyNotExist)))
    } else if s.kitties[kid2].owner != sender {
        (s, Err(DispatchError::Module(Error::NotKittyOwner)))
    } else {
        let dna = breed_dna_spec(s.kitties[kid1].dna, s.kitties[kid2].dna, dna_of(ctx));
        let sr = mint_spec(s, sender, dna, gender_of(ctx));
        match sr.1 {
            Err(e) => (s, Err(e)),
            Ok(id) => (
                KittyState {
                    cnt: sr.0.cnt,
                    kitties: sr.0.kitties,
                    owners: sr.0.owners,
                    balances: sr.0.balances,
                    events: sr.0.events.push(Event::BreedKitty(sender, kid1, kid2, id)),
                    pledge: sr.0.pledge,
                },
                Ok(()),
            ),
        }
    }
}

impl Pallet {
    /// An empty registry over an empty ledger, with the given pledge.
    pub fn new(pledge: u64) -> (r: Pallet)
        ensures
            r@ == (KittyState {
                cnt: 0,
                kitties: Map::<u64, KittyM>::empty(),
                owners: Map::<u64, u64>::empty(),
                balances: Map::<u64, AccountData>::empty(),
                events: Seq::<Event>::empty(),
                pledge,
            }),
    {
        let r = Pallet {
            kitty_cnt: 0,
            kitties: HashMap::new(),
            kitties_owned: HashMap::new(),
            ledger: Ledger::new(),
            events: Vec::new(),
            pledge,
        };
        proof {
            assert(kitty_models(r.kitties@) =~= Map::<u64, KittyM>::empty());
        }
        r
    }

    /// Whether `acct` owns the kitty; an error when the kitty does not exist.
    pub fn is_kitty_owner(&self, kitty_id: u64, acct: u64) -> (r: Result<bool, Error>)
        ensures
            r == (if self@.kitties.contains_key(kitty_id) {
                Ok::<bool, Error>(self@.kitties[kitty_id].owner == acct)
            } else {
                Err::<bool, Error>(Error::KittyNotExist)
            }),
    {
        match self.kitties.get(&kitty_id) {
            Some(k) => Ok(k.owner == acct),
            None => Err(Error::KittyNotExist),
        }
    }

    /// Mint a kitty for `owner`.  A missing DNA or gender is derived from the
    /// host entropy.  All-or-nothing: the reservation and the counter are
    /// validated before anything is written.
    pub fn mint(&mut self, owner: u64, dna: Option<[u8; 16]>, gender: Option<Gender>, ctx: &HostCtx)
        -> (r: Result<u64, DispatchError>)
        ensures
            ({
                let dna_m = match dna {
                    Some(d) => d@,
                    None => dna_of(*ctx),
                };
                let gender_m = match gender {
                    Some(g) => g,
                    None => gender_of(*ctx),
                };
                let sr = mint_spec(old(self)@, owner, dna_m, gender_m);
                final(self)@ == sr.0 && r == sr.1
            }),
            r is Err ==> *final(self) == *old(self),
            final(self)@.cnt >= old(self)@.cnt,
            wf(old(self)@) && deposits_conserved(old(self)@) ==> wf(final(self)@)
                && deposits_conserved(final(self)@),
    {
        let free = self.ledger.free_balance(owner);
        if free < self.pledge {
            return Err(DispatchError::Balances(BalanceError::InsufficientBalance));
        }
        let reserved = self.ledger.reserved_balance(owner);
        if self.pledge > u64::MAX - reserved {
            return Err(DispatchError::Balances(BalanceError::Overflow));
        }
        if self.kitty_cnt == u64::MAX {
            return Err(DispatchError::Module(Error::KittyCntOverflow));
        }

        let dna_v = match dna {
            Some(d) => d,
            None => gen_dna(ctx),
        };
        let gender_v = match gender {
            Some(g) => g,
            None => gen_gender(ctx),
        };
        let reserve_r = self.ledger.reserve(owner, self.pledge);
        match reserve_r {
            Ok(()) => {},
            Err(e) => {
                return Err(DispatchError::Balances(e));
            },
        }
        let kitty = Kitty {
            dna: dna_v,
            price: None,
            gender: gender_v,
            owner,
            deposit: self.pledge,
        };
        let id = self.kitty_cnt;
        self.kitty_cnt = self.kitty_cnt + 1;
        self.kitties_owned.insert(id, owner);
        self.kitties.insert(id, kitty);
        proof {
            lemma_kitty_models_insert(old(self).kitties@, id, kitty);
            let dna_m = match dna {
                Some(d) => d@,
                None => dna_of(*ctx),
            };
            let gender_m = match gender {
                Some(g) => g,
                None => gender_of(*ctx),
            };
            let sr = mint_spec(old(self)@, owner, dna_m, gender_m);
            assert(final(self)@ =~= sr.0);
            if wf(old(self)@) && deposits_conserved(old(self)@) {
                crate::laws::lemma_mint_preserves_wf(old(self)@, owner, dna_m, gender_m);
                crate::laws::lemma_mint_conserves_deposits(old(self)@, owner, dna_m, gender_m);
            }
        }
        Ok(id)
    }

    /// The unified mutator behind `transfer`, `sell_kitty` and `buy_kitty`.
    /// All-or-nothing: every balance movement is validated before any write.
    pub fn exchange(&mut self, kitty_id: u64, who: u64, to: Option<u64>, price: Option<u64>) -> (r:
        Result<(), DispatchError>)
        ensures
            ({
                let sr = exchange_spec(old(self)@, kitty_id, who, to, price);
                final(self)@ == sr.0 && r == sr.1
            }),
            r is Err ==> *final(self) == *old(self),
            final(self)@.cnt >= old(self)@.cnt,
            wf(old(self)@) && deposits_conserved(old(self)@) ==> wf(final(self)@)
                && deposits_conserved(final(self)@),
    {
        let k = match self.kitties.get(&kitty_id) {
            Some(k) => *k,
            None => {
                return Err(DispatchError::Module(Error::KittyNotExist));
            },
        };
        if k.owner == who {
            match to {
                Some(new_owner) => {
                    if new_owner == who {
                        return Err(DispatchError::Module(Error::TransferToSelf));
                    }
                    let rep = self.ledger.repatriate_reserved(k.owner, new_owner, k.deposit);
                    match rep {
                        Ok(()) => {},
                        Err(e) => {
                            return Err(DispatchError::Balances(e));
                        },
                    }
                    let updated = Kitty {
                        dna: k.dna,
                        price: None,
                        gender: k.gender,
                        owner: new_owner,
                        deposit: k.deposit,
                    };
                    self.kitties.insert(kitty_id, updated);
                    self.kitties_owned.insert(kitty_id, new_owner);
                    self.events.push(Event::Transferred(who, new_owner, kitty_id));
                    proof {
                        lemma_kitty_models_insert(old(self).kitties@, kitty_id, updated);
                        let sr = exchange_spec(old(self)@, kitty_id, who, to, price);
                        assert(final(self)@ =~= sr.0);
                        if wf(old(self)@) && deposits_conserved(old(self)@) {
                            crate::laws::lemma_exchange_preserves_wf(
                                old(self)@, kitty_id, who, to, price,
                            );
                            crate::laws::lemma_exchange_conserves_deposits(
                                old(self)@, kitty_id, who, to, price,
                            );
                        }
                    }
                    Ok(())
                },
                None => {
                    let updated = Kitty {
                        dna: k.dna,
                        price,
                        gender: k.gender,
                        owner: k.owner,
                        deposit: k.deposit,
                    };
                    self.kitties.insert(kitty_id, updated);
                    self.events.push(Event::PriceSet(who, kitty_id, price));
                    proof {
                        lemma_kitty_models_insert(old(self).kitties@, kitty_id, updated);
                        let sr = exchange_spec(old(self)@, kitty_id, who, to, price);
                        assert(final(self)@ =~= sr.0);
                        if wf(old(self)@) && deposits_conserved(old(self)@) {
                            crate::laws::lemma_exchange_preserves_wf(
                                old(self)@, kitty_id, who, to, price,
                            );
                            crate::laws::lemma_exchange_conserves_deposits(
                                old(self)@, kitty_id, who, to, price,
                            );
                        }
                    }
                    Ok(())
                },
            }
        } else {
            let bid = match price {
                Some(bid) => bid,
                None => {
                    return Err(DispatchError::Module(Error::NotKittyOwner));
                },
            };
            match k.price {
                Some(ask) => {
                    if ask > bid {
                        return Err(DispatchError::Module(Error::KittyBidPriceTooLow));
                    }
                },
                None => {
                    return Err(DispatchError::Module(Error::KittyNotForSale));
                },
            }
            // validate the repatriation, the bid cover, and the payment
            // before mutating anything, in the order the errors are owed
            let seller_reserved = self.ledger.reserved_balance(k.owner);
            if seller_reserved < k.deposit {
                return Err(DispatchError::Balances(BalanceError::InsufficientBalance));
            }
            let buyer_reserved = self.ledger.reserved_balance(who);
            if k.deposit > u64::MAX - buyer_reserved {
                return Err(DispatchError::Balances(BalanceError::Overflow));
            }
            let buyer_free = self.ledger.free_balance(who);
            if buyer_free < bid {
                return Err(DispatchError::Module(Error::NotEnoughBalance));
            }
            let seller_free = self.ledger.free_balance(k.owner);
            if bid > u64::MAX - seller_free {
                return Err(DispatchError::Balances(BalanceError::Overflow));
            }
            let rep = self.ledger.repatriate_reserved(k.owner, who, k.deposit);
            match rep {
                Ok(()) => {},
                Err(e) => {
                    return Err(DispatchError::Balances(e));
                },
            }
            let pay = self.ledger.transfer(who, k.owner, bid);
            match pay {
                Ok(()) => {},
                Err(e) => {
                    return Err(DispatchError::Balances(e));
                },
            }
            let updated = Kitty {
                dna: k.dna,
                price: None,
                gender: k.gender,
                owner: who,
                deposit: k.deposit,
            };
            self.kitties.insert(kitty_id, updated);
            self.kitties_owned.insert(kitty_id, who);
            self.events.push(Event::Bought(who, k.owner, kitty_id, bid));
            proof {
                lemma_kitty_models_insert(old(self).kitties@, kitty_id, updated);
                let sr = exchange_spec(old(self)@, kitty_id, who, to, price);
                assert(final(self)@ =~= sr.0);
                if wf(old(self)@) && deposits_conserved(old(self)@) {
                    crate::laws::lemma_exchange_preserves_wf(old(self)@, kitty_id, who, to, price);
                    crate::laws::lemma_exchange_conserves_deposits(
                        old(self)@, kitty_id, who, to, price,
                    );
                }
            }
            Ok(())
        }
    }

    /// Create a new kitty for `sender`, with DNA and gender derived from the
    /// host entropy.
    pub fn create_kitty(&mut self, sender: u64, ctx: &HostCtx) -> (r: Result<(), DispatchError>)
        ensures
            ({
                let sr = create_kitty_spec(old(self)@, sender, *ctx);
                final(self)@ == sr.0 && r == sr.1
            }),
            r is Err ==> *final(self) == *old(self),
            final(self)@.cnt >= old(self)@.cnt,
            wf(old(self)@) && deposits_conserved(old(self)@) ==> wf(final(self)@)
                && deposits_conserved(final(self)@),
    {
        let id = match self.mint(sender, None, None, ctx) {
            Ok(id) => id,
            Err(e) => {
                return Err(e);
            },
        };
        self.events.push(Event::Created(sender, id));
        proof {
            let sr = create_kitty_spec(old(self)@, sender, *ctx);
            assert(final(self)@ =~= sr.0);
            if wf(old(self)@) && deposits_conserved(old(self)@) {
                crate::laws::lemma_create_kitty_preserves_invariants(old(self)@, sender, *ctx);
            }
        }
        Ok(())
    }

    /// Set (or clear) the asking price of a kitty the sender owns.
    pub fn sell_kitty(&mut self, sender: u64, kitty_id: u64, new_price: Option<u64>) -> (r: Result<
        (),
        DispatchError,
    >)
        ensures
            ({
                let sr = sell_kitty_spec(old(self)@, sender, kitty_id, new_price);
                final(self)@ == sr.0 && r == sr.1
            }),
            r is Err ==> *final(self) == *old(self),
            final(self)@.cnt >= old(self)@.cnt,
            wf(old(self)@) && deposits_conserved(old(self)@) ==> wf(final(self)@)
                && deposits_conserved(final(self)@),
    {
        match self.is_kitty_owner(kitty_id, sender) {
            Err(e) => {
                return Err(DispatchError::Module(e));
            },
            Ok(owned) => {
                if !owned {
                    return Err(DispatchError::Module(Error::NotKittyOwner));
                }
            },
        }
        self.exchange(kitty_id, sender, None, new_price)
    }

    /// Buy a kitty that is for sale, bidding `bid_price`.
    pub fn buy_kitty(&mut self, buyer: u64, kitty_id: u64, bid_price: u64) -> (r: Result<
        (),
        DispatchError,
    >)
        ensures
            ({
                let sr = buy_kitty_spec(old(self)@, buyer, kitty_id, bid_price);
                final(self)@ == sr.0 && r == sr.1
            }),
            r is Err ==> *final(self) == *old(self),
            final(self)@.cnt >= old(self)@.cnt,
            wf(old(self)@) && deposits_conserved(old(self)@) ==> wf(final(self)@)
                && deposits_conserved(final(self)@),
    {
        match self.is_kitty_owner(kitty_id, buyer) {
            Err(e) => {
                return Err(DispatchError::Module(e));
            },
            Ok(owned) => {
                if owned {
                    return Err(DispatchError::Module(Error::BuyerIsKittyOwner));
                }
            },
        }
        self.exchange(kitty_id, buyer, None, Some(bid_price))
    }

    /// Transfer a kitty the sender owns to `to`, resetting its price.
    pub fn transfer(&mut self, from: u64, to: u64, kitty_id: u64) -> (r: Result<(), DispatchError>)
        ensures
            ({
                let sr = transfer_spec(old(self)@, from, to, kitty_id);
                final(self)@ == sr.0 && r == sr.1
            }),
            r is Err ==> *final(self) == *old(self),
            final(self)@.cnt >= old(self)@.cnt,
            wf(old(self)@) && deposits_conserved(old(self)@) ==> wf(final(self)@)
                && deposits_conserved(final(self)@),
    {
        if from == to {
            return Err(DispatchError::Module(Error::TransferToSelf));
        }
        self.exchange(kitty_id, from, Some(to), None)
    }

    /// The bred DNA of two existing kitties: bit-wise, the fresh seed picks
    /// the first parent's bit where set, the second parent's where clear.
    pub fn breed_dna(&self, kid1: u64, kid2: u64, ctx: &HostCtx) -> (r: Result<[u8; 16], Error>)
        ensures
            match breed_dna_res_spec(self@, kid1, kid2, *ctx) {
                Ok(d) => r matches Ok(v) && v@ == d,
                Err(e) => r == Err::<[u8; 16], Error>(e),
            },
    {
        let d1 = match self.kitties.get(&kid1) {
            Some(k) => k.dna,
            None => {
                return Err(Error::KittyNotExist);
            },
        };
        let d2 = match self.kitties.get(&kid2) {
            Some(k) => k.dna,
            None => {
                return Err(Error::KittyNotExist);
            },
        };
        let seed = gen_dna(ctx);
        let mut out: [u8; 16] = [0u8; 16];
        let mut i: usize = 0;
        while i < 16
            invariant
                i <= 16,
                forall|j: int| 0 <= j < i ==> out@[j] == breed_byte(seed@[j], d1@[j], d2@[j]),
            decreases 16 - i,
        {
            out[i] = (seed[i] & d1[i]) | (!seed[i] & d2[i]);
            i = i + 1;
        }
        proof {
            assert(out@ =~= breed_dna_spec(d1@, d2@, seed@));
        }
        Ok(out)
    }

    /// Breed two kitties the sender owns into a new one.
    pub fn breed_kitty(&mut self, sender: u64, kid1: u64, kid2: u64, ctx: &HostCtx) -> (r: Result<
        (),
        DispatchError,
    >)
        ensures
            ({
                let sr = breed_kitty_spec(old(self)@, sender, kid1, kid2, *ctx);
                final(self)@ == sr.0 && r == sr.1
            }),
            r is Err ==> *final(self) == *old(self),
            final(self)@.cnt >= old(self)@.cnt,
            wf(old(self)@) && deposits_conserved(old(self)@) ==> wf(final(self)@)
                && deposits_conserved(final(self)@),
    {
        match self.is_kitty_owner(kid1, sender) {
            Err(e) => {
                return Err(DispatchError::Module(e));
            },
            Ok(owned) => {
                if !owned {
                    return Err(DispatchError::Module(Error::NotKittyOwner));
                }
            },
        }
        match self.is_kitty_owner(kid2, sender) {
            Err(e) => {
                return Err(DispatchError::Module(e));
            },
            Ok(owned) => {
                if !owned {
                    return Err(DispatchError::Module(Error::NotKittyOwner));
                }
            },
        }
        let new_dna = match self.breed_dna(kid1, kid2, ctx) {
            Ok(d) => d,
            Err(e) => {
                return Err(DispatchError::Module(e));
            },
        };
        let id = match self.mint(sender, Some(new_dna), None, ctx) {
            Ok(id) => id,
            Err(e) => {
                return Err(e);
            },
        };
        self.events.push(Event::BreedKitty(sender, kid1, kid2, id));
        proof {
            let sr = breed_kitty_spec(old(self)@, sender, kid1, kid2, *ctx);
            assert(final(self)@ =~= sr.0);
            if wf(old(self)@) && deposits_conserved(old(self)@) {
                crate::laws::lemma_breed_kitty_preserves_invariants(
                    old(self)@, sender, kid1, kid2, *ctx,
                );
            }
        }
        Ok(())
    }
}

/// What building the genesis list does: mint each entry in order with its
/// supplied DNA and gender, stopping at (and propagating) the first failure.
pub open spec fn genesis_spec(s: KittyState, entries: Seq<(u64, [u8; 16], Gender)>) -> (
    KittyState,
    Result<(), DispatchError>,
)
    decreases entries.len(),
{
    if entries.len() == 0 {
        (s, Ok(()))
    } else {
        let e = entries[0];
        let sr = mint_spec(s, e.0, e.1@, e.2);
        match sr.1 {
            Err(err) => (s, Err(err)),
            Ok(_) => genesis_spec(sr.0, entries.drop_first()),
        }
    }
}

/// The genesis list of the registry: `(owner, dna, gender)` triples, minted
/// in order, so that assigned ids start at zero.
pub struct GenesisConfig {
    pub kitties: Vec<(u64, [u8; 16], Gender)>,
}

impl Default for GenesisConfig {
    /// An empty genesis list.
    fn default() -> (r: GenesisConfig)
        ensures
            r.kitties@.len() == 0,
    {
        GenesisConfig { kitties: Vec::new() }
    }
}

impl GenesisConfig {
    /// Mint every genesis entry in order, stopping at the first failure.
    /// Genesis supplies DNA and gender, so the host entropy is never
    /// consulted.
    pub fn build(&self, pallet: &mut Pallet) -> (r: Result<(), DispatchError>)
        ensures
            ({
                let sr = genesis_spec(old(pallet)@, self.kitties@);
                final(pallet)@ == sr.0 && r == sr.1
            }),
            final(pallet)@.cnt >= old(pallet)@.cnt,
            wf(old(pallet)@) && deposits_conserved(old(pallet)@) ==> wf(final(pallet)@)
                && deposits_conserved(final(pallet)@),
    {
        let ctx = HostCtx {
            entropy_gender: [0u8; 32],
            entropy_dna: [0u8; 32],
            block_number: 0,
        };
        let n = self.kitties.len();
        let mut i: usize = 0;
        proof {
            assert(self.kitties@.skip(0) =~= self.kitties@);
        }
        while i < n
            invariant
                i <= n,
                n == self.kitties@.len(),
                genesis_spec(old(pallet)@, self.kitties@) == genesis_spec(
                    pallet@,
                    self.kitties@.skip(i as int),
                ),
                pallet@.cnt >= old(pallet)@.cnt,
            decreases n - i,
        {
            let entry = self.kitties[i];
            let ghost pre = pallet@;
            let res = pallet.mint(entry.0, Some(entry.1), Some(entry.2), &ctx);
            proof {
                assert(self.kitties@.skip(i as int)[0] == self.kitties@[i as int]);
                assert(self.kitties@.skip(i as int).drop_first() =~= self.kitties@.skip(
                    i as int + 1,
                ));
            }
            match res {
                Ok(_) => {},
                Err(e) => {
                    proof {
                        if wf(old(pallet)@) && deposits_conserved(old(pallet)@) {
                            crate::laws::lemma_genesis_preserves_invariants(
                                old(pallet)@,
                                self.kitties@,
                            );
                        }
                    }
                    return Err(e);
                },
            }
            i = i + 1;
        }
        proof {
            assert(self.kitties@.skip(n as int).len() == 0);
            if wf(old(pallet)@) && deposits_conserved(old(pallet)@) {
                crate::laws::lemma_genesis_preserves_invariants(old(pallet)@, self.kitties@);
            }
        }
        Ok(())
    }
}

} // verus!
