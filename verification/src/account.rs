//! One user's account and the transitions that the ledger's operations make
//! on it, each from plain values to plain values.

use vstd::prelude::*;
use crate::amount::Amount;
use crate::model::AccountView;

verus! {

/// Why a transition was not made.
#[derive(Clone, Copy, Debug, PartialEq, Eq, Structural)]
pub enum Refusal {
    /// The account has fewer credits available than were asked for. This is
    /// the ordinary failure: nothing changes.
    Insufficient,
    /// More was to be released than is staked: the books are broken.
    Underflow,
    /// A balance or a counter would no longer fit in 256 bits.
    Overflow,
}

/// The balances and counters of one user.
#[derive(Clone, Copy, Debug, PartialEq, Eq, Structural)]
pub struct Account {
    pub available: Amount,
    pub staked: Amount,
    pub earned_total: Amount,
    pub burned_total: Amount,
    pub wins: Amount,
    pub losses: Amount,
    pub current_win_streak: Amount,
    pub longest_win_streak: Amount,
}

impl View for Account {
    type V = AccountView;

    open spec fn view(&self) -> AccountView {
        AccountView {
            available: self.available.value(),
            staked: self.staked.value(),
            earned_total: self.earned_total.value(),
            burned_total: self.burned_total.value(),
            wins: self.wins.value(),
            losses: self.losses.value(),
            current_win_streak: self.current_win_streak.value(),
            longest_win_streak: self.longest_win_streak.value(),
        }
    }
}

impl Account {
    /// The account of a user of whom nothing was recorded yet.
    pub fn zero() -> (r: Account)
        ensures
            r@ == AccountView::zero(),
    {
        Account {
            available: Amount::zero(),
            staked: Amount::zero(),
            earned_total: Amount::zero(),
            burned_total: Amount::zero(),
            wins: Amount::zero(),
            losses: Amount::zero(),
            current_win_streak: Amount::zero(),
            longest_win_streak: Amount::zero(),
        }
    }

    /// Adds `amount` to the available credits.
    pub fn deposit(self, amount: Amount) -> (r: Result<Account, Refusal>)
        ensures
            r.is_ok() <==> self@.credit_fits(amount.value()),
            r.is_ok() ==> r.unwrap()@ == self@.credit(amount.value()),
            r.is_err() ==> r.unwrap_err() == Refusal::Overflow,
    {
        match self.available.checked_add(amount) {
            Some(available) => Ok(Account { available, ..self }),
            None => Err(Refusal::Overflow),
        }
    }

    /// Takes `amount` from the available credits, where there are that many.
    pub fn withdraw(self, amount: Amount) -> (r: Result<Account, Refusal>)
        ensures
            r.is_ok() <==> amount.value() <= self@.available,
            r.is_ok() ==> r.unwrap()@ == self@.debit(amount.value()),
            r.is_err() ==> r.unwrap_err() == Refusal::Insufficient,
    {
        match self.available.checked_sub(amount) {
            Some(available) => Ok(Account { available, ..self }),
            None => Err(Refusal::Insufficient),
        }
    }

    /// Moves `stake` from the available credits to the staked ones.
    pub fn stake(self, stake: Amount) -> (r: Result<Account, Refusal>)
        ensures
            r.is_ok() <==> self@.lock_fits(stake.value()),
            r.is_ok() ==> r.unwrap()@ == self@.lock(stake.value()),
            r == Err::<Account, Refusal>(Refusal::Insufficient) <==> stake.value()
                > self@.available,
            r.is_err() ==> r.unwrap_err() == Refusal::Insufficient || r.unwrap_err()
                == Refusal::Overflow,
    {
        let available = match self.available.checked_sub(stake) {
            Some(v) => v,
            None => {
                return Err(Refusal::Insufficient);
            },
        };
        match self.staked.checked_add(stake) {
            Some(staked) => Ok(Account { available, staked, ..self }),
            None => Err(Refusal::Overflow),
        }
    }

    /// Books a completed goal with `stake`: the stake goes back to the
    /// available credits and counts as earned, the wins and the streak grow
    /// by one, and the longest streak follows a strictly longer one.
    pub fn win(self, stake: Amount) -> (r: Result<Account, Refusal>)
        ensures
            r.is_ok() <==> self@.win_fits(stake.value()),
            r.is_ok() ==> r.unwrap()@ == self@.win(stake.value()),
            r == Err::<Account, Refusal>(Refusal::Underflow) <==> stake.value() > self@.staked,
            r.is_err() ==> r.unwrap_err() == Refusal::Underflow || r.unwrap_err()
                == Refusal::Overflow,
    {
        let one = Amount::from_u64(1);
        let staked = match self.staked.checked_sub(stake) {
            Some(v) => v,
            None => {
                return Err(Refusal::Underflow);
            },
        };
        let available = match self.available.checked_add(stake) {
            Some(v) => v,
            None => {
                return Err(Refusal::Overflow);
            },
        };
        let earned_total = match self.earned_total.checked_add(stake) {
            Some(v) => v,
            None => {
                return Err(Refusal::Overflow);
            },
        };
        let wins = match self.wins.checked_add(one) {
            Some(v) => v,
            None => {
                return Err(Refusal::Overflow);
            },
        };
        let current_win_streak = match self.current_win_streak.checked_add(one) {
            Some(v) => v,
            None => {
                return Err(Refusal::Overflow);
            },
        };
        let longest_win_streak = if self.longest_win_streak.lt(current_win_streak) {
            current_win_streak
        } else {
            self.longest_win_streak
        };
        Ok(
            Account {
                available,
                staked,
                earned_total,
                wins,
                current_win_streak,
                longest_win_streak,
                ..self
            },
        )
    }

    /// Books a missed goal with `stake`: the stake leaves the staked credits
    /// and counts as burned, the losses grow by one and the streak ends.
    pub fn lose(self, stake: Amount) -> (r: Result<Account, Refusal>)
        ensures
            r.is_ok() <==> self@.lose_fits(stake.value()),
            r.is_ok() ==> r.unwrap()@ == self@.lose(stake.value()),
            r == Err::<Account, Refusal>(Refusal::Underflow) <==> stake.value() > self@.staked,
            r.is_err() ==> r.unwrap_err() == Refusal::Underflow || r.unwrap_err()
                == Refusal::Overflow,
    {
        let staked = match self.staked.checked_sub(stake) {
            Some(v) => v,
            None => {
                return Err(Refusal::Underflow);
            },
        };
        let burned_total = match self.burned_total.checked_add(stake) {
            Some(v) => v,
            None => {
                return Err(Refusal::Overflow);
            },
        };
        let losses = match self.losses.checked_add(Amount::from_u64(1)) {
            Some(v) => v,
            None => {
                return Err(Refusal::Overflow);
            },
        };
        Ok(
            Account {
                staked,
                burned_total,
                losses,
                current_win_streak: Amount::zero(),
                ..self
            },
        )
    }
}

} // verus!
