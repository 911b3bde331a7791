//! The ledger: what each account holds, and transfers between accounts.

use vstd::prelude::*;
use crate::table::Table;
use crate::types::{AccountId, Balance};
use crate::utils::{DispatchError, DispatchResult};

verus! {

/// The balance of `who` in a ledger: zero for an account it does not hold.
pub open spec fn balance_in(ledger: Map<Seq<char>, nat>, who: Seq<char>) -> nat {
    if ledger.contains_key(who) {
        ledger[who]
    } else {
        0
    }
}

/// The sum of all balances of a ledger.
pub open spec fn total(ledger: Map<Seq<char>, nat>) -> nat
    decreases ledger.dom().len(),
    when ledger.dom().finite()
{
    if ledger.dom().is_empty() {
        0
    } else {
        let who = ledger.dom().choose();
        ledger[who] + total(ledger.remove(who))
    }
}

/// The ledger after `amount` has left the balance of `caller`.
pub open spec fn debited(ledger: Map<Seq<char>, nat>, caller: Seq<char>, amount: nat) -> Map<
    Seq<char>,
    nat,
> {
    ledger.insert(caller, (balance_in(ledger, caller) - amount) as nat)
}

/// The ledger after `amount` has come to the balance of `to`.
pub open spec fn credited(ledger: Map<Seq<char>, nat>, to: Seq<char>, amount: nat) -> Map<
    Seq<char>,
    nat,
> {
    ledger.insert(to, balance_in(ledger, to) + amount)
}

/// Whether a transfer is carried out, and if not, why. The credit is
/// reckoned on the ledger as the debit leaves it, so an account that pays
/// itself is judged on one balance.
pub open spec fn transfer_result(
    ledger: Map<Seq<char>, nat>,
    caller: Seq<char>,
    to: Seq<char>,
    amount: nat,
) -> DispatchResult {
    if balance_in(ledger, caller) < amount {
        Err(DispatchError::InsufficientBalance)
    } else if balance_in(debited(ledger, caller, amount), to) + amount > Balance::MAX {
        Err(DispatchError::Overflow)
    } else {
        Ok(())
    }
}

/// The ledger after a transfer: debited and then credited where the transfer
/// is carried out, untouched where it is refused.
pub open spec fn transfer_ledger(
    ledger: Map<Seq<char>, nat>,
    caller: Seq<char>,
    to: Seq<char>,
    amount: nat,
) -> Map<Seq<char>, nat> {
    if transfer_result(ledger, caller, to, amount) is Ok {
        credited(debited(ledger, caller, amount), to, amount)
    } else {
        ledger
    }
}

/// Taking one account out of a ledger lowers the total by its balance.
pub proof fn lemma_total_remove(ledger: Map<Seq<char>, nat>, who: Seq<char>)
    requires
        ledger.dom().finite(),
        ledger.contains_key(who),
    ensures
        total(ledger) == ledger[who] + total(ledger.remove(who)),
    decreases ledger.dom().len(),
{
    let first = ledger.dom().choose();
    if first != who {
        lemma_total_remove(ledger.remove(first), who);
        lemma_total_remove(ledger.remove(who), first);
        assert(ledger.remove(first).remove(who) =~= ledger.remove(who).remove(first));
    }
}

/// Setting one balance changes the total by the difference.
pub proof fn lemma_total_insert(ledger: Map<Seq<char>, nat>, who: Seq<char>, amount: nat)
    requires
        ledger.dom().finite(),
    ensures
        total(ledger.insert(who, amount)) + balance_in(ledger, who) == total(ledger) + amount,
{
    let after = ledger.insert(who, amount);
    lemma_total_remove(after, who);
    if ledger.contains_key(who) {
        lemma_total_remove(ledger, who);
        assert(after.remove(who) =~= ledger.remove(who));
    } else {
        assert(after.remove(who) =~= ledger);
    }
}

/// Conservation: a transfer, carried out or refused, leaves the sum of all
/// balances as it was.
pub proof fn lemma_transfer_conserves(
    ledger: Map<Seq<char>, nat>,
    caller: Seq<char>,
    to: Seq<char>,
    amount: nat,
)
    requires
        ledger.dom().finite(),
    ensures
        transfer_ledger(ledger, caller, to, amount).dom().finite(),
        total(transfer_ledger(ledger, caller, to, amount)) == total(ledger),
{
    if transfer_result(ledger, caller, to, amount) is Ok {
        let mid = debited(ledger, caller, amount);
        lemma_total_insert(ledger, caller, (balance_in(ledger, caller) - amount) as nat);
        lemma_total_insert(mid, to, balance_in(mid, to) + amount);
    }
}

/// What the balances module can be asked to do.
#[derive(Debug)]
pub enum Call {
    /// Move `amount` from the caller to `to`.
    Transfer { to: AccountId, amount: Balance },
}

/// The result of a call on a ledger.
pub open spec fn call_result(ledger: Map<Seq<char>, nat>, caller: Seq<char>, call: Call)
    -> DispatchResult {
    match call {
        Call::Transfer { to, amount } => transfer_result(ledger, caller, to@, amount as nat),
    }
}

/// The ledger after a call.
pub open spec fn call_ledger(ledger: Map<Seq<char>, nat>, caller: Seq<char>, call: Call) -> Map<
    Seq<char>,
    nat,
> {
    match call {
        Call::Transfer { to, amount } => transfer_ledger(ledger, caller, to@, amount as nat),
    }
}

/// The balances module.
#[derive(Debug)]
pub struct Pallet {
    balances: Table<Balance>,
}

impl View for Pallet {
    type V = Map<Seq<char>, nat>;

    closed spec fn view(&self) -> Map<Seq<char>, nat> {
        Map::new(
            |k: Seq<char>| self.balances@.contains_key(k),
            |k: Seq<char>| self.balances@[k] as nat,
        )
    }
}

impl Pallet {
    /// The stored ledger is consistent.
    pub closed spec fn wf(&self) -> bool {
        self.balances.wf()
    }

    /// What the ledger can hold: finitely many accounts, each balance within
    /// its integer type.
    pub proof fn lemma_bounded(&self)
        ensures
            self@.dom().finite(),
            forall|who: Seq<char>| #[trigger] balance_in(self@, who) <= Balance::MAX,
    {
        self.balances.lemma_finite();
        assert(self@.dom() =~= self.balances@.dom());
    }

    /// A ledger that holds no account.
    pub fn new() -> (p: Self)
        ensures
            p.wf(),
            p@ == Map::<Seq<char>, nat>::empty(),
    {
        let p = Pallet { balances: Table::new() };
        proof {
            assert(p@ =~= Map::<Seq<char>, nat>::empty());
        }
        p
    }

    /// Sets the balance of `who` to `amount`, whatever it was.
    pub fn set_balance(&mut self, who: &AccountId, amount: Balance)
        requires
            old(self).wf(),
        ensures
            final(self).wf(),
            final(self)@ == old(self)@.insert(who@, amount as nat),
    {
        self.balances.insert(who.clone(), amount);
        proof {
            assert(self@ =~= old(self)@.insert(who@, amount as nat));
        }
    }

    /// The balance of `who`.
    pub fn balance(&self, who: &AccountId) -> (amount: Balance)
        requires
            self.wf(),
        ensures
            amount == balance_in(self@, who@),
    {
        match self.balances.get(who) {
            Some(amount) => *amount,
            None => 0,
        }
    }

    /// Moves `amount` from `caller` to `to`, unless the caller holds too
    /// little or the recipient would hold too much; the ledger then stays as
    /// it was.
    pub fn transfer(&mut self, caller: AccountId, to: AccountId, amount: Balance) -> (r:
        DispatchResult)
        requires
            old(self).wf(),
        ensures
            final(self).wf(),
            r == transfer_result(old(self)@, caller@, to@, amount as nat),
            final(self)@ == transfer_ledger(old(self)@, caller@, to@, amount as nat),
            total(final(self)@) == total(old(self)@),
    {
        proof {
            self.lemma_bounded();
            lemma_transfer_conserves(self@, caller@, to@, amount as nat);
        }
        let caller_balance = self.balance(&caller);
        let new_caller_balance = match caller_balance.checked_sub(amount) {
            Some(left) => left,
            None => {
                return Err(DispatchError::InsufficientBalance);
            },
        };
        let to_balance = if caller == to {
            new_caller_balance
        } else {
            self.balance(&to)
        };
        let new_to_balance = match to_balance.checked_add(amount) {
            Some(sum) => sum,
            None => {
                return Err(DispatchError::Overflow);
            },
        };
        self.balances.insert(caller, new_caller_balance);
        self.balances.insert(to, new_to_balance);
        proof {
            assert(self@ =~= transfer_ledger(old(self)@, caller@, to@, amount as nat));
        }
        Ok(())
    }

    /// Carries out a call on behalf of `caller`.
    pub fn dispatch(&mut self, caller: AccountId, call: Call) -> (r: DispatchResult)
        requires
            old(self).wf(),
        ensures
            final(self).wf(),
            r == call_result(old(self)@, caller@, call),
            final(self)@ == call_ledger(old(self)@, caller@, call),
            total(final(self)@) == total(old(self)@),
    {
        match call {
            Call::Transfer { to, amount } => self.transfer(caller, to, amount),
        }
    }
}

} // verus!
