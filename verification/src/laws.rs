//! The kitty registry's laws: structural well-formedness (every id below the
//! counter, the owner index mirroring the records, every deposit equal to the
//! pledge), conservation of reserved deposits, and the determinism and
//! bit-selection of breeding.  Each law is proved of the registry's pure
//! transition functions, which the operations' contracts equate with their
//! run-time effect.

use crate::host::HostCtx;
use crate::kitties::{
    breed_byte, breed_dna_res_spec, breed_dna_spec, breed_kitty_spec, buy_kitty_spec,
    create_kitty_spec, deposits_conserved, exchange_spec, genesis_spec, mint_spec, owned_ids,
    sell_kitty_spec, transfer_spec, wf, Gender, KittyM, KittyState,
};
use crate::ledger::reserved_of;
use vstd::prelude::*;
use vstd::set_lib::lemma_len_subset;

verus! {

proof fn lemma_owned_ids_finite(s: KittyState, a: u64)
    requires
        s.kitties.dom().finite(),
    ensures
        owned_ids(s, a).finite(),
{
    assert(owned_ids(s, a).subset_of(s.kitties.dom()));
    lemma_len_subset(owned_ids(s, a), s.kitties.dom());
}

proof fn lemma_owned_ids_same_kitties(s1: KittyState, s2: KittyState)
    requires
        s1.kitties == s2.kitties,
    ensures
        forall|a: u64| #[trigger] owned_ids(s1, a) == owned_ids(s2, a),
{
    assert forall|a: u64| #[trigger] owned_ids(s1, a) == owned_ids(s2, a) by {
        assert(owned_ids(s1, a) =~= owned_ids(s2, a));
    }
}

proof fn lemma_deposits_same(s1: KittyState, s2: KittyState)
    requires
        deposits_conserved(s1),
        s1.kitties == s2.kitties,
        s1.balances == s2.balances,
        s1.pledge == s2.pledge,
    ensures
        deposits_conserved(s2),
{
    lemma_owned_ids_same_kitties(s1, s2);
    assert forall|a: u64| reserved_of(s2.balances, a) == s2.pledge * (#[trigger] owned_ids(
        s2,
        a,
    )).len() by {
        assert(owned_ids(s1, a) == owned_ids(s2, a));
        assert(reserved_of(s1.balances, a) == s1.pledge * owned_ids(s1, a).len());
    }
}

proof fn lemma_owned_ids_insert_fresh(s: KittyState, s2: KittyState, id: u64, k: KittyM)
    requires
        s2.kitties == s.kitties.insert(id, k),
        !s.kitties.contains_key(id),
    ensures
        owned_ids(s2, k.owner) == owned_ids(s, k.owner).insert(id),
        forall|a: u64| a != k.owner ==> #[trigger] owned_ids(s2, a) == owned_ids(s, a),
{
    assert(owned_ids(s2, k.owner) =~= owned_ids(s, k.owner).insert(id));
    assert forall|a: u64| a != k.owner implies #[trigger] owned_ids(s2, a) == owned_ids(s, a) by {
        assert(owned_ids(s2, a) =~= owned_ids(s, a));
    }
}

proof fn lemma_owned_ids_update_same_owner(s: KittyState, s2: KittyState, id: u64, k: KittyM)
    requires
        s2.kitties == s.kitties.insert(id, k),
        s.kitties.contains_key(id),
        k.owner == s.kitties[id].owner,
    ensures
        forall|a: u64| #[trigger] owned_ids(s2, a) == owned_ids(s, a),
{
    assert forall|a: u64| #[trigger] owned_ids(s2, a) == owned_ids(s, a) by {
        assert(owned_ids(s2, a) =~= owned_ids(s, a));
    }
}

proof fn lemma_owned_ids_change_owner(s: KittyState, s2: KittyState, id: u64, k: KittyM)
    requires
        s2.kitties == s.kitties.insert(id, k),
        s.kitties.contains_key(id),
        k.owner != s.kitties[id].owner,
    ensures
        owned_ids(s2, k.owner) == owned_ids(s, k.owner).insert(id),
        owned_ids(s2, s.kitties[id].owner) == owned_ids(s, s.kitties[id].owner).remove(id),
        forall|a: u64|
            a != k.owner && a != s.kitties[id].owner ==> #[trigger] owned_ids(s2, a) == owned_ids(
                s,
                a,
            ),
{
    assert(owned_ids(s2, k.owner) =~= owned_ids(s, k.owner).insert(id));
    assert(owned_ids(s2, s.kitties[id].owner) =~= owned_ids(s, s.kitties[id].owner).remove(id));
    assert forall|a: u64| a != k.owner && a != s.kitties[id].owner implies #[trigger] owned_ids(
        s2,
        a,
    ) == owned_ids(s, a) by {
        assert(owned_ids(s2, a) =~= owned_ids(s, a));
    }
}

/// Law: minting preserves structural well-formedness.
pub proof fn lemma_mint_preserves_wf(s: KittyState, owner: u64, dna: Seq<u8>, gender: Gender)
    requires
        wf(s),
    ensures
        wf(mint_spec(s, owner, dna, gender).0),
{
    let sr = mint_spec(s, owner, dna, gender);
    if sr.1 is Ok {
        let s2 = sr.0;
        assert forall|id: u64| #[trigger] s2.kitties.contains_key(id) implies id < s2.cnt by {
            if id != s.cnt {
                assert(s.kitties.contains_key(id));
            }
        }
        assert forall|id: u64| #[trigger] s2.kitties.contains_key(id) implies s2.owners.contains_key(
            id,
        ) && s2.owners[id] == s2.kitties[id].owner by {
            if id != s.cnt {
                assert(s.kitties.contains_key(id));
            }
        }
    }
}

/// Law: minting conserves deposits: the new owner's reserved balance grows by
/// exactly one pledge together with its owned count.
pub proof fn lemma_mint_conserves_deposits(s: KittyState, owner: u64, dna: Seq<u8>, gender: Gender)
    requires
        wf(s),
        deposits_conserved(s),
    ensures
        deposits_conserved(mint_spec(s, owner, dna, gender).0),
{
    let sr = mint_spec(s, owner, dna, gender);
    if sr.1 is Ok {
        let s2 = sr.0;
        let id = s.cnt;
        let k = KittyM { dna, price: None, gender, owner, deposit: s.pledge };
        assert(!s.kitties.contains_key(id));
        lemma_owned_ids_insert_fresh(s, s2, id, k);
        assert forall|a: u64| reserved_of(s2.balances, a) == s2.pledge * (#[trigger] owned_ids(
            s2,
            a,
        )).len() by {
            lemma_owned_ids_finite(s, a);
            if a == owner {
                assert(!owned_ids(s, owner).contains(id));
                assert(owned_ids(s2, owner).len() == owned_ids(s, owner).len() + 1);
                assert(reserved_of(s2.balances, owner) == reserved_of(s.balances, owner)
                    + s.pledge);
                let p = s.pledge as int;
                let n = owned_ids(s, owner).len() as int;
                assert(p * (n + 1) == p * n + p) by (nonlinear_arith);
            } else {
                assert(owned_ids(s2, a) == owned_ids(s, a));
                assert(reserved_of(s2.balances, a) == reserved_of(s.balances, a));
            }
        }
    }
}

/// Law: the unified mutator preserves structural well-formedness.
pub proof fn lemma_exchange_preserves_wf(
    s: KittyState,
    kitty_id: u64,
    who: u64,
    to: Option<u64>,
    price: Option<u64>,
)
    requires
        wf(s),
    ensures
        wf(exchange_spec(s, kitty_id, who, to, price).0),
{
    let sr = exchange_spec(s, kitty_id, who, to, price);
    if sr.1 is Ok {
        let s2 = sr.0;
        assert forall|id: u64| #[trigger] s2.kitties.contains_key(id) implies id < s2.cnt by {
            if id != kitty_id {
                assert(s.kitties.contains_key(id));
            }
        }
        assert forall|id: u64| #[trigger] s2.owners.contains_key(id) implies s2.kitties.contains_key(
            id,
        ) by {
            if id != kitty_id {
                assert(s.owners.contains_key(id));
            }
        }
        assert forall|id: u64| #[trigger] s2.kitties.contains_key(id) implies s2.owners.contains_key(
            id,
        ) && s2.owners[id] == s2.kitties[id].owner by {
            if id != kitty_id {
                assert(s.kitties.contains_key(id));
            }
        }
        assert forall|id: u64| #[trigger] s2.kitties.contains_key(id) implies s2.kitties[id].deposit
            == s2.pledge by {
            if id != kitty_id {
                assert(s.kitties.contains_key(id));
            }
        }
    }
}

/// Law: the unified mutator conserves deposits: a change of owner moves
/// exactly one pledge of reserved balance along with the token.
pub proof fn lemma_exchange_conserves_deposits(
    s: KittyState,
    kitty_id: u64,
    who: u64,
    to: Option<u64>,
    price: Option<u64>,
)
    requires
        wf(s),
        deposits_conserved(s),
    ensures
        deposits_conserved(exchange_spec(s, kitty_id, who, to, price).0),
{
    let sr = exchange_spec(s, kitty_id, who, to, price);
    if sr.1 is Ok {
        let s2 = sr.0;
        let k = s.kitties[kitty_id];
        assert(k.deposit == s.pledge);
        if k.owner == who && to is None {
            let k2 = KittyM {
                dna: k.dna,
                price,
                gender: k.gender,
                owner: k.owner,
                deposit: k.deposit,
            };
            lemma_owned_ids_update_same_owner(s, s2, kitty_id, k2);
            assert forall|a: u64| reserved_of(s2.balances, a) == s2.pledge * (#[trigger] owned_ids(
                s2,
                a,
            )).len() by {
                assert(owned_ids(s2, a) == owned_ids(s, a));
            }
        } else {
            // a change of owner: directly (mode A) or through a purchase
            let new_owner = if k.owner == who {
                to->0
            } else {
                who
            };
            let k2 = KittyM {
                dna: k.dna,
                price: None,
                gender: k.gender,
                owner: new_owner,
                deposit: k.deposit,
            };
            assert(s2.kitties == s.kitties.insert(kitty_id, k2));
            assert(new_owner != k.owner);
            lemma_owned_ids_change_owner(s, s2, kitty_id, k2);
            // in both modes the reserved parts move by exactly the deposit,
            // and a purchase's payment touches only free balances
            assert(reserved_of(s2.balances, new_owner) == reserved_of(s.balances, new_owner)
                + s.pledge);
            assert(reserved_of(s2.balances, k.owner) == reserved_of(s.balances, k.owner)
                - s.pledge);
            assert forall|a: u64| a != new_owner && a != k.owner implies reserved_of(s2.balances, a)
                == reserved_of(s.balances, a) by {}
            assert forall|a: u64| reserved_of(s2.balances, a) == s2.pledge * (#[trigger] owned_ids(
                s2,
                a,
            )).len() by {
                lemma_owned_ids_finite(s, a);
                let p = s.pledge as int;
                if a == new_owner {
                    assert(!owned_ids(s, a).contains(kitty_id));
                    assert(owned_ids(s2, a).len() == owned_ids(s, a).len() + 1);
                    let n = owned_ids(s, a).len() as int;
                    assert(p * (n + 1) == p * n + p) by (nonlinear_arith);
                } else if a == k.owner {
                    assert(owned_ids(s, a).contains(kitty_id));
                    assert(owned_ids(s2, a).len() == owned_ids(s, a).len() - 1);
                    let n = owned_ids(s, a).len() as int;
                    assert(p * (n - 1) == p * n - p) by (nonlinear_arith);
                } else {
                    assert(owned_ids(s2, a) == owned_ids(s, a));
                }
            }
        }
    }
}

/// Law: creating a kitty preserves well-formedness and deposit conservation.
pub proof fn lemma_create_kitty_preserves_invariants(s: KittyState, sender: u64, ctx: HostCtx)
    requires
        wf(s),
        deposits_conserved(s),
    ensures
        wf(create_kitty_spec(s, sender, ctx).0),
        deposits_conserved(create_kitty_spec(s, sender, ctx).0),
{
    lemma_mint_preserves_wf(s, sender, crate::host::dna_of(ctx), crate::host::gender_of(ctx));
    lemma_mint_conserves_deposits(
        s,
        sender,
        crate::host::dna_of(ctx),
        crate::host::gender_of(ctx),
    );
    let sr = mint_spec(s, sender, crate::host::dna_of(ctx), crate::host::gender_of(ctx));
    if sr.1 is Ok {
        lemma_deposits_same(sr.0, create_kitty_spec(s, sender, ctx).0);
    }
}

/// Law: setting a price preserves well-formedness and deposit conservation.
pub proof fn lemma_sell_kitty_preserves_invariants(
    s: KittyState,
    sender: u64,
    kitty_id: u64,
    new_price: Option<u64>,
)
    requires
        wf(s),
        deposits_conserved(s),
    ensures
        wf(sell_kitty_spec(s, sender, kitty_id, new_price).0),
        deposits_conserved(sell_kitty_spec(s, sender, kitty_id, new_price).0),
{
    lemma_exchange_preserves_wf(s, kitty_id, sender, None, new_price);
    lemma_exchange_conserves_deposits(s, kitty_id, sender, None, new_price);
}

/// Law: buying preserves well-formedness and deposit conservation.
pub proof fn lemma_buy_kitty_preserves_invariants(
    s: KittyState,
    buyer: u64,
    kitty_id: u64,
    bid_price: u64,
)
    requires
        wf(s),
        deposits_conserved(s),
    ensures
        wf(buy_kitty_spec(s, buyer, kitty_id, bid_price).0),
        deposits_conserved(buy_kitty_spec(s, buyer, kitty_id, bid_price).0),
{
    lemma_exchange_preserves_wf(s, kitty_id, buyer, None, Some(bid_price));
    lemma_exchange_conserves_deposits(s, kitty_id, buyer, None, Some(bid_price));
}

/// Law: transferring preserves well-formedness and deposit conservation.
pub proof fn lemma_transfer_preserves_invariants(s: KittyState, from: u64, to: u64, kitty_id: u64)
    requires
        wf(s),
        deposits_conserved(s),
    ensures
        wf(transfer_spec(s, from, to, kitty_id).0),
        deposits_conserved(transfer_spec(s, from, to, kitty_id).0),
{
    if from != to {
        lemma_exchange_preserves_wf(s, kitty_id, from, Some(to), None);
        lemma_exchange_conserves_deposits(s, kitty_id, from, Some(to), None);
    }
}

/// Law: breeding preserves well-formedness and deposit conservation.
pub proof fn lemma_breed_kitty_preserves_invariants(
    s: KittyState,
    sender: u64,
    kid1: u64,
    kid2: u64,
    ctx: HostCtx,
)
    requires
        wf(s),
        deposits_conserved(s),
    ensures
        wf(breed_kitty_spec(s, sender, kid1, kid2, ctx).0),
        deposits_conserved(breed_kitty_spec(s, sender, kid1, kid2, ctx).0),
{
    if s.kitties.contains_key(kid1) && s.kitties[kid1].owner == sender && s.kitties.contains_key(
        kid2,
    ) && s.kitties[kid2].owner == sender {
        let dna = breed_dna_spec(s.kitties[kid1].dna, s.kitties[kid2].dna, crate::host::dna_of(ctx));
        lemma_mint_preserves_wf(s, sender, dna, crate::host::gender_of(ctx));
        lemma_mint_conserves_deposits(s, sender, dna, crate::host::gender_of(ctx));
        let sr = mint_spec(s, sender, dna, crate::host::gender_of(ctx));
        if sr.1 is Ok {
            lemma_deposits_same(sr.0, breed_kitty_spec(s, sender, kid1, kid2, ctx).0);
        }
    }
}

/// Law: building a genesis list preserves well-formedness and deposit
/// conservation, however far it gets.
pub proof fn lemma_genesis_preserves_invariants(s: KittyState, entries: Seq<(u64, [u8; 16], Gender)>)
    requires
        wf(s),
        deposits_conserved(s),
    ensures
        wf(genesis_spec(s, entries).0),
        deposits_conserved(genesis_spec(s, entries).0),
    decreases entries.len(),
{
    if entries.len() > 0 {
        let e = entries[0];
        let sr = mint_spec(s, e.0, e.1@, e.2);
        if sr.1 is Ok {
            lemma_mint_preserves_wf(s, e.0, e.1@, e.2);
            lemma_mint_conserves_deposits(s, e.0, e.1@, e.2);
            lemma_genesis_preserves_invariants(sr.0, entries.drop_first());
        }
    }
}

/// Law: breeding is reproducible: the same parent records and the same host
/// entropy and block number give the same child DNA, whatever else differs
/// between the two states.
pub proof fn lemma_breed_dna_deterministic(
    s1: KittyState,
    s2: KittyState,
    kid1: u64,
    kid2: u64,
    ctx1: HostCtx,
    ctx2: HostCtx,
)
    requires
        s1.kitties == s2.kitties,
        ctx1.entropy_dna@ == ctx2.entropy_dna@,
        ctx1.block_number == ctx2.block_number,
    ensures
        breed_dna_res_spec(s1, kid1, kid2, ctx1) == breed_dna_res_spec(s2, kid1, kid2, ctx2),
{
    assert(crate::host::dna_of(ctx1) == crate::host::dna_of(ctx2));
}

/// Law: in one bred byte, each bit comes from the first parent where the
/// seed bit is set and from the second parent where it is clear.
pub proof fn lemma_breed_byte_bit(seed: u8, a: u8, b: u8, i: u8)
    requires
        i < 8,
    ensures
        ((breed_byte(seed, a, b) >> i) & 1) == (if (seed >> i) & 1 == 1 {
            (a >> i) & 1
        } else {
            (b >> i) & 1
        }),
{
    assert((((seed & a) | (!seed & b)) >> i) & 1 == (if (seed >> i) & 1 == 1 {
        (a >> i) & 1
    } else {
        (b >> i) & 1
    })) by (bit_vector)
        requires
            i < 8,
    ;
}

/// Law: in a bred DNA, every bit of every byte comes from the first parent
/// where the seed bit is set and from the second parent where it is clear.
pub proof fn lemma_breed_dna_bit_selection(d1: Seq<u8>, d2: Seq<u8>, seed: Seq<u8>, byte: int, i: u8)
    requires
        0 <= byte < 16,
        i < 8,
    ensures
        ((breed_dna_spec(d1, d2, seed)[byte] >> i) & 1) == (if (seed[byte] >> i) & 1 == 1 {
            (d1[byte] >> i) & 1
        } else {
            (d2[byte] >> i) & 1
        }),
{
    assert(breed_dna_spec(d1, d2, seed)[byte] == breed_byte(seed[byte], d1[byte], d2[byte]));
    lemma_breed_byte_bit(seed[byte], d1[byte], d2[byte], i);
}

} // verus!
