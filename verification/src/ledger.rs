//! A model of the host's balances subsystem: per-account free and reserved
//! balances, with the operations the registries consume (reserving a deposit,
//! repatriating reserved funds between accounts, and free-balance transfer).
//! Every operation is all-or-nothing: on an error the ledger is unchanged.

use std::collections::HashMap;
use vstd::prelude::*;

verus! {

broadcast use vstd::std_specs::hash::group_hash_axioms;

/// One account's balance, split into its free and its reserved part.
#[derive(Clone, Copy, PartialEq, Eq, Structural, Debug)]
pub struct AccountData {
    pub free: u64,
    pub reserved: u64,
}

/// An error surfaced by a balance operation.
#[derive(Clone, Copy, PartialEq, Eq, Structural, Debug)]
pub enum BalanceError {
    /// The paying side cannot cover the requested amount.
    InsufficientBalance,
    /// The operation would push a balance past the balance type's maximum.
    Overflow,
}

/// The ledger: every account's balance.  An account that is absent holds
/// nothing (both parts zero).
pub struct Ledger {
    pub accounts: HashMap<u64, AccountData>,
}

impl View for Ledger {
    type V = Map<u64, AccountData>;

    open spec fn view(&self) -> Map<u64, AccountData> {
        self.accounts@
    }
}

/// The free balance of `who` under `m`; zero when the account is absent.
pub open spec fn free_of(m: Map<u64, AccountData>, who: u64) -> u64 {
    if m.contains_key(who) {
        m[who].free
    } else {
        0
    }
}

/// The reserved balance of `who` under `m`; zero when the account is absent.
pub open spec fn reserved_of(m: Map<u64, AccountData>, who: u64) -> u64 {
    if m.contains_key(who) {
        m[who].reserved
    } else {
        0
    }
}

/// Both parts of `who`'s balance under `m`.
pub open spec fn account_of(m: Map<u64, AccountData>, who: u64) -> AccountData {
    AccountData { free: free_of(m, who), reserved: reserved_of(m, who) }
}

/// What reserving does: move `amount` of `who`'s balance from free to reserved.
pub open spec fn reserve_spec(m: Map<u64, AccountData>, who: u64, amount: u64) -> Result<
    Map<u64, AccountData>,
    BalanceError,
> {
    if free_of(m, who) < amount {
        Err(BalanceError::InsufficientBalance)
    } else if reserved_of(m, who) + amount > u64::MAX {
        Err(BalanceError::Overflow)
    } else {
        Ok(
            m.insert(
                who,
                AccountData {
                    free: (free_of(m, who) - amount) as u64,
                    reserved: (reserved_of(m, who) + amount) as u64,
                },
            ),
        )
    }
}

/// What repatriating does: move `amount` of `from`'s reserved balance to `to`,
/// keeping it reserved on the recipient.
pub open spec fn repatriate_reserved_spec(
    m: Map<u64, AccountData>,
    from: u64,
    to: u64,
    amount: u64,
) -> Result<Map<u64, AccountData>, BalanceError> {
    if reserved_of(m, from) < amount {
        Err(BalanceError::InsufficientBalance)
    } else if from == to {
        Ok(m)
    } else if reserved_of(m, to) + amount > u64::MAX {
        Err(BalanceError::Overflow)
    } else {
        Ok(
            m.insert(
                from,
                AccountData {
                    free: free_of(m, from),
                    reserved: (reserved_of(m, from) - amount) as u64,
                },
            ).insert(
                to,
                AccountData {
                    free: free_of(m, to),
                    reserved: (reserved_of(m, to) + amount) as u64,
                },
            ),
        )
    }
}

/// What a free-balance transfer does: move `amount` of `from`'s free balance
/// to `to`'s free balance.
pub open spec fn free_transfer_spec(
    m: Map<u64, AccountData>,
    from: u64,
    to: u64,
    amount: u64,
) -> Result<Map<u64, AccountData>, BalanceError> {
    if free_of(m, from) < amount {
        Err(BalanceError::InsufficientBalance)
    } else if from == to {
        Ok(m)
    } else if free_of(m, to) + amount > u64::MAX {
        Err(BalanceError::Overflow)
    } else {
        Ok(
            m.insert(
                from,
                AccountData {
                    free: (free_of(m, from) - amount) as u64,
                    reserved: reserved_of(m, from),
                },
            ).insert(
                to,
                AccountData {
                    free: (free_of(m, to) + amount) as u64,
                    reserved: reserved_of(m, to),
                },
            ),
        )
    }
}

impl Ledger {
    /// An empty ledger.
    pub fn new() -> (r: Ledger)
        ensures
            r@ == Map::<u64, AccountData>::empty(),
    {
        Ledger { accounts: HashMap::new() }
    }

    fn get_account(&self, who: u64) -> (r: AccountData)
        ensures
            r == account_of(self@, who),
    {
        match self.accounts.get(&who) {
            Some(a) => *a,
            None => AccountData { free: 0, reserved: 0 },
        }
    }

    /// The free part of `who`'s balance.
    pub fn free_balance(&self, who: u64) -> (r: u64)
        ensures
            r == free_of(self@, who),
    {
        self.get_account(who).free
    }

    /// The reserved part of `who`'s balance.
    pub fn reserved_balance(&self, who: u64) -> (r: u64)
        ensures
            r == reserved_of(self@, who),
    {
        self.get_account(who).reserved
    }

    /// Endow `who` with a free balance, keeping its reserved part (genesis).
    pub fn set_free_balance(&mut self, who: u64, amount: u64)
        ensures
            final(self)@ == old(self)@.insert(
                who,
                AccountData { free: amount, reserved: reserved_of(old(self)@, who) },
            ),
    {
        let a = self.get_account(who);
        self.accounts.insert(who, AccountData { free: amount, reserved: a.reserved });
    }

    /// Move `amount` of `who`'s balance from free to reserved.
    pub fn reserve(&mut self, who: u64, amount: u64) -> (r: Result<(), BalanceError>)
        ensures
            match reserve_spec(old(self)@, who, amount) {
                Ok(m) => r == Ok::<(), BalanceError>(()) && final(self)@ == m,
                Err(e) => r == Err::<(), BalanceError>(e) && *final(self) == *old(self),
            },
    {
        let a = self.get_account(who);
        if a.free < amount {
            return Err(BalanceError::InsufficientBalance);
        }
        if amount > u64::MAX - a.reserved {
            return Err(BalanceError::Overflow);
        }
        self.accounts.insert(
            who,
            AccountData { free: a.free - amount, reserved: a.reserved + amount },
        );
        Ok(())
    }

    /// Move `amount` of `from`'s reserved balance to `to`, keeping it
    /// reserved on the recipient.
    pub fn repatriate_reserved(&mut self, from: u64, to: u64, amount: u64) -> (r: Result<
        (),
        BalanceError,
    >)
        ensures
            match repatriate_reserved_spec(old(self)@, from, to, amount) {
                Ok(m) => r == Ok::<(), BalanceError>(()) && final(self)@ == m,
                Err(e) => r == Err::<(), BalanceError>(e) && *final(self) == *old(self),
            },
    {
        let a = self.get_account(from);
        if a.reserved < amount {
            return Err(BalanceError::InsufficientBalance);
        }
        if from == to {
            return Ok(());
        }
        let b = self.get_account(to);
        if amount > u64::MAX - b.reserved {
            return Err(BalanceError::Overflow);
        }
        self.accounts.insert(
            from,
            AccountData { free: a.free, reserved: a.reserved - amount },
        );
        self.accounts.insert(to, AccountData { free: b.free, reserved: b.reserved + amount });
        Ok(())
    }

    /// Move `amount` of `from`'s free balance to `to`'s free balance.
    pub fn transfer(&mut self, from: u64, to: u64, amount: u64) -> (r: Result<(), BalanceError>)
        ensures
            match free_transfer_spec(old(self)@, from, to, amount) {
                Ok(m) => r == Ok::<(), BalanceError>(()) && final(self)@ == m,
                Err(e) => r == Err::<(), BalanceError>(e) && *final(self) == *old(self),
            },
    {
        let a = self.get_account(from);
        if a.free < amount {
            return Err(BalanceError::InsufficientBalance);
        }
        if from == to {
            return Ok(());
        }
        let b = self.get_account(to);
        if amount > u64::MAX - b.free {
            return Err(BalanceError::Overflow);
        }
        self.accounts.insert(from, AccountData { free: a.free - amount, reserved: a.reserved });
        self.accounts.insert(to, AccountData { free: b.free + amount, reserved: b.reserved });
        Ok(())
    }
}

} // verus!
