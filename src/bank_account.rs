use vstd::prelude::*;
use crate::number::{decimal, push_decimal};
use crate::text::{chars_of, string_from_chars};

verus! {

/// The log line of a deposit by `actor` of `amount`, leaving `balance`.
pub open spec fn deposit_line(actor: Seq<char>, amount: int, balance: int) -> Seq<char> {
    actor + " deposited: "@ + decimal(amount) + ". New balance: "@ + decimal(balance)
}

/// The log line of a withdrawal by `actor` of `amount`, leaving `balance`.
pub open spec fn withdraw_line(actor: Seq<char>, amount: int, balance: int) -> Seq<char> {
    actor + " withdrew: "@ + decimal(amount) + ". New balance: "@ + decimal(balance)
}

/// The log line of a refused withdrawal by `actor` of `amount` at `balance`.
pub open spec fn refusal_line(actor: Seq<char>, amount: int, balance: int) -> Seq<char> {
    actor + " failed to withdraw: "@ + decimal(amount)
        + ". Insufficient funds or invalid amount. Balance: "@ + decimal(balance)
}

/// `actor`, then `first`, then `amount`, then `second`, then `balance` in decimal.
fn log_line(actor: &str, first: &str, amount: i64, second: &str, balance: i64) -> (r: String)
    ensures
        r@ == actor@ + first@ + decimal(amount as int) + second@ + decimal(balance as int),
{
    let mut out = chars_of(actor);
    let mut part = chars_of(first);
    out.append(&mut part);
    push_decimal(&mut out, amount);
    let mut part = chars_of(second);
    out.append(&mut part);
    push_decimal(&mut out, balance);
    proof {
        assert(out@ =~= actor@ + first@ + decimal(amount as int) + second@ + decimal(balance as int));
    }
    string_from_chars(&out)
}

/// An account with a balance and an append-only log of what was done to it.
#[derive(Debug)]
pub struct BankAccount {
    pub id: u32,
    pub balance: i64,
    pub transaction_log: Vec<String>,
}

impl BankAccount {
    /// An account with `initial_balance` and an empty log.
    pub fn new(id: u32, initial_balance: i64) -> (r: Self)
        ensures
            r.id == id,
            r.balance == initial_balance,
            r.transaction_log@.len() == 0,
    {
        BankAccount { id, balance: initial_balance, transaction_log: Vec::new() }
    }

    /// Adds a positive `amount` to the balance and logs it; any other amount
    /// changes nothing.
    pub fn deposit(&mut self, amount: i64, actor: &str)
        requires
            amount > 0 ==> old(self).balance + amount <= i64::MAX,
        ensures
            final(self).id == old(self).id,
            amount > 0 ==> {
                &&& final(self).balance == old(self).balance + amount
                &&& final(self).transaction_log@.len() == old(self).transaction_log@.len() + 1
                &&& final(self).transaction_log@.drop_last() == old(self).transaction_log@
                &&& final(self).transaction_log@.last()@ == deposit_line(
                    actor@,
                    amount as int,
                    final(self).balance as int,
                )
            },
            amount <= 0 ==> *final(self) == *old(self),
    {
        if amount > 0 {
            self.balance = self.balance + amount;
            let entry = log_line(actor, " deposited: ", amount, ". New balance: ", self.balance);
            self.transaction_log.push(entry);
        }
    }

    /// Takes a positive `amount` covered by the balance and returns true; any
    /// other request is refused, logged, and returns false. Either way one line
    /// is logged.
    pub fn withdraw(&mut self, amount: i64, actor: &str) -> (done: bool)
        ensures
            done == (amount > 0 && old(self).balance >= amount),
            final(self).id == old(self).id,
            done ==> final(self).balance == old(self).balance - amount,
            !done ==> final(self).balance == old(self).balance,
            final(self).transaction_log@.len() == old(self).transaction_log@.len() + 1,
            final(self).transaction_log@.drop_last() == old(self).transaction_log@,
            done ==> final(self).transaction_log@.last()@ == withdraw_line(
                actor@,
                amount as int,
                final(self).balance as int,
            ),
            !done ==> final(self).transaction_log@.last()@ == refusal_line(
                actor@,
                amount as int,
                old(self).balance as int,
            ),
    {
        if amount > 0 && self.balance >= amount {
            self.balance = self.balance - amount;
            let entry = log_line(actor, " withdrew: ", amount, ". New balance: ", self.balance);
            self.transaction_log.push(entry);
            true
        } else {
            let entry = log_line(
                actor,
                " failed to withdraw: ",
                amount,
                ". Insufficient funds or invalid amount. Balance: ",
                self.balance,
            );
            self.transaction_log.push(entry);
            false
        }
    }
}

} // verus!
