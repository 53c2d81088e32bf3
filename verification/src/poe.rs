//! The proof-of-existence registry: byte-string claims bound to an owner and
//! the block in which they were last created or transferred.
//!
//! Claims are held in an association list whose mathematical image is a map
//! from claim bytes to `(owner, since)`; between operations the list holds no
//! claim twice and no claim longer than the configured maximum.

use vstd::prelude::*;

verus! {

/// The registry's failure conditions.
#[derive(Clone, Copy, PartialEq, Eq, Structural, Debug)]
pub enum Error {
    /// The claim is already registered.
    ProofAlreadyExist,
    /// The claim is not registered.
    ClaimNotExist,
    /// The caller does not own the claim.
    NotClaimOwner,
    /// The claim is longer than the configured maximum.
    ClaimOverLength,
}

/// What the registry tells the host's event log.  Revocation removes the
/// claim but reports nothing; the variant is declared for compatibility.
#[derive(Clone, PartialEq, Eq, Debug)]
pub enum Event {
    /// A claim was registered: owner, claim bytes.
    ClaimCreated(u64, Vec<u8>),
    /// A claim changed hands: from, to, claim bytes.
    ClaimTransferred(u64, u64, Vec<u8>),
    /// A claim was revoked: owner, claim bytes.
    ClaimRevoked(u64, Vec<u8>),
}

/// The mathematical image of one event; the claim as a plain byte sequence.
#[verifier::ext_equal]
pub ghost enum EventM {
    ClaimCreated(u64, Seq<u8>),
    ClaimTransferred(u64, u64, Seq<u8>),
    ClaimRevoked(u64, Seq<u8>),
}

impl View for Event {
    type V = EventM;

    open spec fn view(&self) -> EventM {
        match self {
            Event::ClaimCreated(who, c) => EventM::ClaimCreated(*who, c@),
            Event::ClaimTransferred(who, dest, c) => EventM::ClaimTransferred(*who, *dest, c@),
            Event::ClaimRevoked(who, c) => EventM::ClaimRevoked(*who, c@),
        }
    }
}

/// One stored claim: its bytes, its owner, and the block it was last created
/// or transferred in.
pub struct ClaimEntry {
    pub claim: Vec<u8>,
    pub owner: u64,
    pub since: u64,
}

/// The registry's observable state: the claim map, the event log, and the
/// host-configured maximum claim length.
#[verifier::ext_equal]
pub ghost struct PoeState {
    pub proofs: Map<Seq<u8>, (u64, u64)>,
    pub events: Seq<EventM>,
    pub max_claim_length: u32,
}

/// The map an entry list stands for; a later entry would shadow an earlier
/// one, though a well-formed registry never holds a claim twice.
pub open spec fn claims_map(entries: Seq<ClaimEntry>) -> Map<Seq<u8>, (u64, u64)>
    decreases entries.len(),
{
    if entries.len() == 0 {
        Map::empty()
    } else {
        claims_map(entries.drop_last()).insert(
            entries.last().claim@,
            (entries.last().owner, entries.last().since),
        )
    }
}

/// No two entries hold the same claim.
pub open spec fn claims_unique(entries: Seq<ClaimEntry>) -> bool {
    forall|i: int, j: int|
        #![trigger entries[i], entries[j]]
        0 <= i < j < entries.len() ==> entries[i].claim@ != entries[j].claim@
}

proof fn lemma_claims_map_found(entries: Seq<ClaimEntry>, i: int)
    requires
        claims_unique(entries),
        0 <= i < entries.len(),
    ensures
        claims_map(entries).contains_key(entries[i].claim@),
        claims_map(entries)[entries[i].claim@] == (entries[i].owner, entries[i].since),
    decreases entries.len(),
{
    if i < entries.len() - 1 {
        lemma_claims_map_found(entries.drop_last(), i);
    }
}

proof fn lemma_claims_map_absent(entries: Seq<ClaimEntry>, c: Seq<u8>)
    requires
        forall|j: int| 0 <= j < entries.len() ==> (#[trigger] entries[j]).claim@ != c,
    ensures
        !claims_map(entries).contains_key(c),
    decreases entries.len(),
{
    if entries.len() > 0 {
        lemma_claims_map_absent(entries.drop_last(), c);
    }
}

proof fn lemma_claims_map_update(entries: Seq<ClaimEntry>, i: int, e: ClaimEntry)
    requires
        claims_unique(entries),
        0 <= i < entries.len(),
        e.claim@ == entries[i].claim@,
    ensures
        claims_map(entries.update(i, e)) == claims_map(entries).insert(
            e.claim@,
            (e.owner, e.since),
        ),
        claims_unique(entries.update(i, e)),
    decreases entries.len(),
{
    let u = entries.update(i, e);
    assert forall|a: int, b: int|
        #![trigger u[a], u[b]]
        0 <= a < b < u.len() implies u[a].claim@ != u[b].claim@ by {
        assert(entries[a].claim@ != entries[b].claim@);
    }
    if i == entries.len() - 1 {
        assert(u.drop_last() =~= entries.drop_last());
        assert(claims_map(u) =~= claims_map(entries).insert(e.claim@, (e.owner, e.since)));
    } else {
        assert(u.drop_last() =~= entries.drop_last().update(i, e));
        lemma_claims_map_update(entries.drop_last(), i, e);
        // the final entry's claim differs from `e`'s, so the inserts commute
        assert(entries.last().claim@ != e.claim@);
        assert(claims_map(u) =~= claims_map(entries).insert(e.claim@, (e.owner, e.since)));
    }
}

proof fn lemma_claims_map_remove_at(entries: Seq<ClaimEntry>, i: int)
    requires
        claims_unique(entries),
        0 <= i < entries.len(),
    ensures
        claims_map(entries.remove(i)) == claims_map(entries).remove(entries[i].claim@),
        claims_unique(entries.remove(i)),
    decreases entries.len(),
{
    let r = entries.remove(i);
    assert forall|a: int, b: int|
        #![trigger r[a], r[b]]
        0 <= a < b < r.len() implies r[a].claim@ != r[b].claim@ by {
        let a0: int = if a < i {
            a
        } else {
            a + 1
        };
        let b0: int = if b < i {
            b
        } else {
            b + 1
        };
        assert(r[a] == entries[a0]);
        assert(r[b] == entries[b0]);
        assert(entries[a0].claim@ != entries[b0].claim@);
    }
    if i == entries.len() - 1 {
        assert(r =~= entries.drop_last());
        assert forall|j: int| 0 <= j < entries.drop_last().len() implies (#[trigger] entries.drop_last()[j]).claim@
            != entries[i].claim@ by {
            assert(entries[j].claim@ != entries[i].claim@);
        }
        lemma_claims_map_absent(entries.drop_last(), entries[i].claim@);
        assert(claims_map(r) =~= claims_map(entries).remove(entries[i].claim@));
    } else {
        assert(r.drop_last() =~= entries.drop_last().remove(i));
        lemma_claims_map_remove_at(entries.drop_last(), i);
        // the final entry's claim differs from the removed one, so removal
        // commutes with the final insert
        assert(entries.last().claim@ != entries[i].claim@);
        assert(claims_map(r) =~= claims_map(entries).remove(entries[i].claim@));
    }
}

/// What `create_claim` does: reject an over-long or already-registered claim,
/// otherwise bind the claim to the caller and the current block.
pub open spec fn create_claim_spec(s: PoeState, who: u64, claim: Seq<u8>, block: u64) -> (
    PoeState,
    Result<(), Error>,
) {
    if claim.len() > s.max_claim_length {
        (s, Err(Error::ClaimOverLength))
    } else if s.proofs.contains_key(claim) {
        (s, Err(Error::ProofAlreadyExist))
    } else {
        (
            PoeState {
                proofs: s.proofs.insert(claim, (who, block)),
                events: s.events.push(EventM::ClaimCreated(who, claim)),
                max_claim_length: s.max_claim_length,
            },
            Ok(()),
        )
    }
}

/// What `trans_claim` does: only the owner of a registered claim may hand it
/// over; the claim is re-bound to the recipient and the current block.
pub open spec fn trans_claim_spec(s: PoeState, who: u64, claim: Seq<u8>, dest: u64, block: u64) -> (
    PoeState,
    Result<(), Error>,
) {
    if !s.proofs.contains_key(claim) {
        (s, Err(Error::ClaimNotExist))
    } else if s.proofs[claim].0 != who {
        (s, Err(Error::NotClaimOwner))
    } else {
        (
            PoeState {
                proofs: s.proofs.insert(claim, (dest, block)),
                events: s.events.push(EventM::ClaimTransferred(who, dest, claim)),
                max_claim_length: s.max_claim_length,
            },
            Ok(()),
        )
    }
}

/// What `revoked_claim` does: only the owner of a registered claim may remove
/// it; removal reports no event.
pub open spec fn revoked_claim_spec(s: PoeState, who: u64, claim: Seq<u8>) -> (
    PoeState,
    Result<(), Error>,
) {
    if !s.proofs.contains_key(claim) {
        (s, Err(Error::ClaimNotExist))
    } else if s.proofs[claim].0 != who {
        (s, Err(Error::NotClaimOwner))
    } else {
        (
            PoeState {
                proofs: s.proofs.remove(claim),
                events: s.events,
                max_claim_length: s.max_claim_length,
            },
            Ok(()),
        )
    }
}

fn bytes_eq(a: &Vec<u8>, b: &Vec<u8>) -> (r: bool)
    ensures
        r <==> a@ == b@,
{
    if a.len() != b.len() {
        return false;
    }
    let n = a.len();
    let mut i: usize = 0;
    while i < n
        invariant
            i <= n,
            n == a@.len(),
            n == b@.len(),
            forall|j: int| 0 <= j < i ==> a@[j] == b@[j],
        decreases n - i,
    {
        if a[i] != b[i] {
            return false;
        }
        i = i + 1;
    }
    proof {
        assert(a@ =~= b@);
    }
    true
}

fn copy_bytes(a: &Vec<u8>) -> (r: Vec<u8>)
    ensures
        r@ == a@,
{
    let n = a.len();
    let mut r: Vec<u8> = Vec::new();
    let mut i: usize = 0;
    while i < n
        invariant
            i <= n,
            n == a@.len(),
            r@ == a@.take(i as int),
        decreases n - i,
    {
        r.push(a[i]);
        proof {
            assert(r@ =~= a@.take(i as int + 1));
        }
        i = i + 1;
    }
    proof {
        assert(a@.take(n as int) =~= a@);
    }
    r
}

/// The proof-of-existence registry: the claim list, its event log, and the
/// host-configured maximum claim length.
pub struct Pallet {
    pub proofs: Vec<ClaimEntry>,
    pub events: Vec<Event>,
    pub max_claim_length: u32,
}

impl View for Pallet {
    type V = PoeState;

    open spec fn view(&self) -> PoeState {
        PoeState {
            proofs: claims_map(self.proofs@),
            events: self.events@.map_values(|e: Event| e@),
            max_claim_length: self.max_claim_length,
        }
    }
}

impl Pallet {
    /// Well-formedness between operations: no claim is stored twice, and
    /// every stored claim respects the length bound.
    pub open spec fn wf(&self) -> bool {
        &&& claims_unique(self.proofs@)
        &&& forall|i: int|
            0 <= i < self.proofs@.len() ==> (#[trigger] self.proofs@[i]).claim@.len()
                <= self.max_claim_length
    }

    /// An empty registry with the given maximum claim length.
    pub fn new(max_claim_length: u32) -> (r: Pallet)
        ensures
            r@ == (PoeState {
                proofs: Map::<Seq<u8>, (u64, u64)>::empty(),
                events: Seq::<EventM>::empty(),
                max_claim_length,
            }),
            r.wf(),
    {
        let r = Pallet { proofs: Vec::new(), events: Vec::new(), max_claim_length };
        proof {
            assert(r.events@.map_values(|e: Event| e@) =~= Seq::<EventM>::empty());
        }
        r
    }

    /// The owner and block stored for `claim`, if it is registered.
    pub fn proofs_of(&self, claim: &Vec<u8>) -> (r: Option<(u64, u64)>)
        requires
            self.wf(),
        ensures
            r == (if self@.proofs.contains_key(claim@) {
                Some(self@.proofs[claim@])
            } else {
                None::<(u64, u64)>
            }),
    {
        match self.find_claim(claim) {
            Some(i) => {
                proof {
                    lemma_claims_map_found(self.proofs@, i as int);
                }
                Some((self.proofs[i].owner, self.proofs[i].since))
            },
            None => {
                proof {
                    lemma_claims_map_absent(self.proofs@, claim@);
                }
                None
            },
        }
    }

    fn find_claim(&self, claim: &Vec<u8>) -> (r: Option<usize>)
        ensures
            match r {
                Some(i) => i < self.proofs@.len() && self.proofs@[i as int].claim@ == claim@,
                None => forall|j: int|
                    0 <= j < self.proofs@.len() ==> (#[trigger] self.proofs@[j]).claim@ != claim@,
            },
    {
        let n = self.proofs.len();
        let mut i: usize = 0;
        while i < n
            invariant
                i <= n,
                n == self.proofs@.len(),
                forall|j: int| 0 <= j < i ==> (#[trigger] self.proofs@[j]).claim@ != claim@,
            decreases n - i,
        {
            if bytes_eq(&self.proofs[i].claim, claim) {
                return Some(i);
            }
            i = i + 1;
        }
        None
    }

    /// Register `claim` for `who` at `block`.
    pub fn create_claim(&mut self, who: u64, claim: Vec<u8>, block: u64) -> (r: Result<(), Error>)
        requires
            old(self).wf(),
        ensures
            final(self).wf(),
            ({
                let sr = create_claim_spec(old(self)@, who, claim@, block);
                final(self)@ == sr.0 && r == sr.1
            }),
            r is Err ==> *final(self) == *old(self),
            r is Ok ==> claim@.len() <= old(self).max_claim_length,
    {
        let ghost claim_v = claim@;
        if claim.len() > self.max_claim_length as usize {
            return Err(Error::ClaimOverLength);
        }
        match self.find_claim(&claim) {
            Some(i) => {
                proof {
                    lemma_claims_map_found(self.proofs@, i as int);
                }
                return Err(Error::ProofAlreadyExist);
            },
            None => {
                proof {
                    lemma_claims_map_absent(self.proofs@, claim_v);
                }
            },
        }
        let claim_evt = copy_bytes(&claim);
        let ghost pre = self.proofs@;
        let ghost pre_events = self.events@;
        let entry = ClaimEntry { claim, owner: who, since: block };
        self.proofs.push(entry);
        self.events.push(Event::ClaimCreated(who, claim_evt));
        proof {
            assert(self.proofs@.drop_last() =~= pre);
            assert forall|a: int, b: int|
                #![trigger self.proofs@[a], self.proofs@[b]]
                0 <= a < b < self.proofs@.len() implies self.proofs@[a].claim@
                != self.proofs@[b].claim@ by {
                if b < pre.len() {
                    assert(pre[a].claim@ != pre[b].claim@);
                } else {
                    assert(pre[a].claim@ != claim_v);
                }
            }
            assert(self.events@.map_values(|e: Event| e@) =~= pre_events.map_values(
                |e: Event| e@,
            ).push(EventM::ClaimCreated(who, claim_v)));
            let sr = create_claim_spec(old(self)@, who, claim_v, block);
            assert(final(self)@ =~= sr.0);
        }
        Ok(())
    }

    /// Hand the registered claim `claim`, owned by `who`, over to `dest`.
    pub fn trans_claim(&mut self, who: u64, claim: Vec<u8>, dest: u64, block: u64) -> (r: Result<
        (),
        Error,
    >)
        requires
            old(self).wf(),
        ensures
            final(self).wf(),
            ({
                let sr = trans_claim_spec(old(self)@, who, claim@, dest, block);
                final(self)@ == sr.0 && r == sr.1
            }),
            r is Err ==> *final(self) == *old(self),
    {
        let ghost claim_v = claim@;
        let idx = match self.find_claim(&claim) {
            Some(i) => i,
            None => {
                proof {
                    lemma_claims_map_absent(self.proofs@, claim_v);
                }
                return Err(Error::ClaimNotExist);
            },
        };
        proof {
            lemma_claims_map_found(self.proofs@, idx as int);
        }
        if self.proofs[idx].owner != who {
            return Err(Error::NotClaimOwner);
        }
        let claim_evt = copy_bytes(&claim);
        let ghost pre = self.proofs@;
        let ghost pre_events = self.events@;
        let entry = ClaimEntry { claim, owner: dest, since: block };
        proof {
            lemma_claims_map_update(pre, idx as int, entry);
        }
        self.proofs[idx] = entry;
        self.events.push(Event::ClaimTransferred(who, dest, claim_evt));
        proof {
            assert(self.events@.map_values(|e: Event| e@) =~= pre_events.map_values(
                |e: Event| e@,
            ).push(EventM::ClaimTransferred(who, dest, claim_v)));
            let sr = trans_claim_spec(old(self)@, who, claim_v, dest, block);
            assert(final(self)@ =~= sr.0);
        }
        Ok(())
    }

    /// Remove the registered claim `claim`, owned by `who`.
    pub fn revoked_claim(&mut self, who: u64, claim: Vec<u8>) -> (r: Result<(), Error>)
        requires
            old(self).wf(),
        ensures
            final(self).wf(),
            ({
                let sr = revoked_claim_spec(old(self)@, who, claim@);
                final(self)@ == sr.0 && r == sr.1
            }),
            r is Err ==> *final(self) == *old(self),
    {
        let ghost claim_v = claim@;
        let idx = match self.find_claim(&claim) {
            Some(i) => i,
            None => {
                proof {
                    lemma_claims_map_absent(self.proofs@, claim_v);
                }
                return Err(Error::ClaimNotExist);
            },
        };
        proof {
            lemma_claims_map_found(self.proofs@, idx as int);
        }
        if self.proofs[idx].owner != who {
            return Err(Error::NotClaimOwner);
        }
        proof {
            lemma_claims_map_remove_at(self.proofs@, idx as int);
        }
        self.proofs.remove(idx);
        proof {
            let sr = revoked_claim_spec(old(self)@, who, claim_v);
            assert(final(self)@ =~= sr.0);
        }
        Ok(())
    }
}

/// Law: registering a claim and then revoking it restores the claim map to
/// its pre-registration state (the event log keeps the creation report).
pub proof fn lemma_claim_round_trip(s: PoeState, who: u64, claim: Seq<u8>, block: u64)
    requires
        create_claim_spec(s, who, claim, block).1 is Ok,
    ensures
        ({
            let s1 = create_claim_spec(s, who, claim, block).0;
            &&& revoked_claim_spec(s1, who, claim).1 is Ok
            &&& revoked_claim_spec(s1, who, claim).0.proofs == s.proofs
        }),
{
    let s1 = create_claim_spec(s, who, claim, block).0;
    assert(s1.proofs.remove(claim) =~= s.proofs);
}

/// Law: registering a claim succeeds only when its length is within the
/// configured maximum.
pub proof fn lemma_claim_bound(s: PoeState, who: u64, claim: Seq<u8>, block: u64)
    ensures
        create_claim_spec(s, who, claim, block).1 is Ok ==> claim.len() <= s.max_claim_length,
{
}

} // verus!
