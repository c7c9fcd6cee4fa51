//! The currency that rents are paid in, as the runtime provides it, and the
//! record of what the pallets asked of it.
use vstd::prelude::*;

use crate::types::{AccountId, Balance};

verus! {

/// A transfer that the currency refused.
#[derive(Clone, Copy, PartialEq, Eq, Debug)]
pub struct TransferError;

/// The currency of the runtime, which the pallets pay rents in.
///
/// The runtime that uses a pallet implements it; the pallets make no
/// assumption on what its methods return.
pub trait Currency {
    /// The balance of `who` that can be spent.
    fn free_balance(&self, who: AccountId) -> Balance;

    /// Moves `amount` from `from` to `to`, keeping both accounts alive.
    fn transfer(&mut self, from: AccountId, to: AccountId, amount: Balance) -> Result<
        (),
        TransferError,
    >;
}

/// A question put to the currency, with its answer.
#[derive(Clone, Copy, PartialEq, Eq, Debug)]
pub enum CurrencyCall {
    /// The free balance of `who` was asked for; the currency answered `balance`.
    FreeBalance { who: AccountId, balance: Balance },
    /// A transfer of `amount` from `from` to `to` was asked for; the currency
    /// made it where `accepted`, and refused it otherwise.
    Transfer { from: AccountId, to: AccountId, amount: Balance, accepted: bool },
}

/// The runtime's currency together with the record, oldest first, of every
/// question the pallets put to it and its answer. The record grows only
/// through the methods below, each of which puts its question to the currency.
pub struct Treasury<C> {
    currency: C,
    calls: Ghost<Seq<CurrencyCall>>,
}

impl<C: Currency> Treasury<C> {
    /// The record of the questions put to the currency and its answers.
    pub closed spec fn calls(&self) -> Seq<CurrencyCall> {
        self.calls@
    }

    /// The currency, with nothing asked of it yet.
    pub fn new(currency: C) -> (t: Self)
        ensures
            t.calls() == Seq::<CurrencyCall>::empty(),
    {
        Treasury { currency, calls: Ghost(Seq::empty()) }
    }

    /// Asks the currency for the free balance of `who`.
    pub fn free_balance(&mut self, who: AccountId) -> (balance: Balance)
        ensures
            final(self).calls() == old(self).calls().push(CurrencyCall::FreeBalance { who, balance }),
    {
        let balance = self.currency.free_balance(who);
        self.calls = Ghost(self.calls@.push(CurrencyCall::FreeBalance { who, balance }));
        balance
    }

    /// Asks the currency to move `amount` from `from` to `to`.
    pub fn transfer(&mut self, from: AccountId, to: AccountId, amount: Balance) -> (r: Result<
        (),
        TransferError,
    >)
        ensures
            final(self).calls() == old(self).calls().push(
                CurrencyCall::Transfer { from, to, amount, accepted: r is Ok },
            ),
    {
        let r = self.currency.transfer(from, to, amount);
        self.calls = Ghost(
            self.calls@.push(CurrencyCall::Transfer { from, to, amount, accepted: r.is_ok() }),
        );
        r
    }

    /// The currency, to read it.
    pub fn currency(&self) -> &C {
        &self.currency
    }

    /// The currency, to change it outside the pallets; nothing is recorded.
    pub fn currency_mut(&mut self) -> (c: &mut C)
        ensures
            final(self).calls() == old(self).calls(),
    {
        &mut self.currency
    }
}

/// The questions that paying `amount` from `from` to `to` puts to a currency
/// that answers `balance` for the free balance of `from` and `accepted` for the
/// transfer: the transfer is asked for only where the balance covers the amount.
pub open spec fn payment_calls(
    from: AccountId,
    to: AccountId,
    amount: Balance,
    balance: Balance,
    accepted: bool,
) -> Seq<CurrencyCall> {
    if balance < amount {
        seq![CurrencyCall::FreeBalance { who: from, balance }]
    } else {
        seq![
            CurrencyCall::FreeBalance { who: from, balance },
            CurrencyCall::Transfer { from, to, amount, accepted },
        ]
    }
}

/// The payment went through: the balance covered it and the currency made it.
pub open spec fn payment_made(amount: Balance, balance: Balance, accepted: bool) -> bool {
    balance >= amount && accepted
}

} // verus!
