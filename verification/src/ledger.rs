//! The executable ledger, verified against the model.

use vstd::prelude::*;
use vstd::pervasive::unreached;
use crate::account::{Account, Refusal};
use crate::amount::{max_amount, Amount};
use crate::laws::{law_create_goal_inv, law_empty_inv, law_resolve_inv, law_step_inv};
use crate::model::{lemma_count_bounded, lemma_pending_stake_bounded};
use crate::model::{AccountView, GoalView, LedgerView, Op, Status, UserId};

verus! {

/// The four balances of a user.
#[derive(Clone, Copy, Debug)]
pub struct Balances {
    pub available: Amount,
    pub staked: Amount,
    pub earned_total: Amount,
    pub burned_total: Amount,
}

/// The four counters of a user.
#[derive(Clone, Copy, Debug)]
pub struct Stats {
    pub wins: Amount,
    pub losses: Amount,
    pub current_win_streak: Amount,
    pub longest_win_streak: Amount,
}

/// A goal as the ledger stores and reports it.
#[derive(Debug)]
pub struct Goal {
    pub owner: UserId,
    pub text: String,
    pub category: String,
    pub priority: String,
    pub stake: Amount,
    pub deadline: String,
    pub status: Status,
}

impl View for Goal {
    type V = GoalView;

    open spec fn view(&self) -> GoalView {
        GoalView {
            owner: self.owner,
            text: self.text@,
            category: self.category@,
            priority: self.priority@,
            stake: self.stake.value(),
            deadline: self.deadline@,
            status: self.status,
        }
    }
}

impl Goal {
    /// Whether `user` may resolve this goal: it is theirs and still pending.
    pub fn resolvable_by(&self, user: UserId) -> (r: bool)
        ensures
            r == self@.resolvable_by(user),
    {
        let pending = match self.status {
            Status::Pending => true,
            _ => false,
        };
        self.owner == user && pending
    }
}

/// Whether `id` is the id of a goal, where `last_id` was issued last: ids
/// start at 1, and none is skipped.
pub fn is_issued(id: Amount, last_id: Amount) -> (r: bool)
    ensures
        r == (1 <= id.value() <= last_id.value()),
{
    !id.is_zero() && !last_id.lt(id)
}

/// The id after `last_id`.
pub fn next_id(last_id: Amount) -> (r: Result<Amount, Refusal>)
    ensures
        r.is_ok() <==> last_id.value() < max_amount(),
        r.is_ok() ==> r.unwrap().value() == last_id.value() + 1,
        r.is_err() ==> r.unwrap_err() == Refusal::Overflow,
{
    match last_id.checked_add(Amount::from_u64(1)) {
        Some(id) => Ok(id),
        None => Err(Refusal::Overflow),
    }
}

/// The account of one user, as the ledger stores it.
#[derive(Clone, Copy, Debug)]
struct Entry {
    user: UserId,
    account: Account,
}

/// No user has two entries.
spec fn distinct(accounts: Seq<Entry>) -> bool {
    forall|i: int, j: int|
        0 <= i < j < accounts.len() ==> (#[trigger] accounts[i]).user != (
        #[trigger] accounts[j]).user
}

spec fn is_slot(accounts: Seq<Entry>, user: UserId, i: int) -> bool {
    0 <= i < accounts.len() && accounts[i].user == user
}

spec fn holds(accounts: Seq<Entry>, user: UserId) -> bool {
    exists|i: int| is_slot(accounts, user, i)
}

/// The account of `user`: their entry, or all zeros where they have none.
spec fn account_of(accounts: Seq<Entry>, user: UserId) -> AccountView {
    if holds(accounts, user) {
        accounts[choose|i: int| is_slot(accounts, user, i)].account@
    } else {
        AccountView::zero()
    }
}

spec fn goal_views(goals: Seq<Goal>) -> Seq<GoalView> {
    Seq::new(goals.len(), |i: int| goals[i]@)
}

proof fn lemma_slot(accounts: Seq<Entry>, user: UserId, k: int)
    requires
        distinct(accounts),
        is_slot(accounts, user, k),
    ensures
        holds(accounts, user),
        account_of(accounts, user) == accounts[k].account@,
{
    let c = choose|i: int| is_slot(accounts, user, i);
    assert(is_slot(accounts, user, c));
    if c < k {
        assert(accounts[c].user != accounts[k].user);
    } else if k < c {
        assert(accounts[k].user != accounts[c].user);
    }
}

/// The wallet ledger: the accounts, the goals in the order of their ids, and the
/// charity pool.
pub struct ResolveWallet {
    accounts: Vec<Entry>,
    goals: Vec<Goal>,
    charity_pool: Amount,
}

impl View for ResolveWallet {
    type V = LedgerView;

    closed spec fn view(&self) -> LedgerView {
        LedgerView {
            accounts: Map::new(|u: UserId| true, |u: UserId| account_of(self.accounts@, u)),
            goals: goal_views(self.goals@),
            charity_pool: self.charity_pool.value(),
        }
    }
}

impl ResolveWallet {
    /// The ledger is well formed: no user has two entries, and its model
    /// meets the invariant.
    pub closed spec fn wf(&self) -> bool {
        &&& distinct(self.accounts@)
        &&& self@.inv()
    }

    /// A well-formed ledger's model meets the invariant.
    pub proof fn lemma_wf_inv(&self)
        requires
            self.wf(),
        ensures
            self@.inv(),
    {
    }

    /// A ledger on which nothing happened yet.
    pub fn new() -> (r: ResolveWallet)
        ensures
            r.wf(),
            r@ == LedgerView::empty(),
    {
        let r = ResolveWallet {
            accounts: Vec::new(),
            goals: Vec::new(),
            charity_pool: Amount::zero(),
        };
        proof {
            law_empty_inv();
            assert(r@.goals =~= Seq::<GoalView>::empty());
            assert(r@.accounts =~= LedgerView::empty().accounts);
        }
        r
    }

    /// The index of the entry of `user`, where they have one.
    fn find(&self, user: UserId) -> (r: Option<usize>)
        ensures
            match r {
                Some(k) => is_slot(self.accounts@, user, k as int),
                None => !holds(self.accounts@, user),
            },
    {
        let mut i: usize = 0;
        while i < self.accounts.len()
            invariant
                i <= self.accounts@.len(),
                forall|j: int| 0 <= j < i ==> !is_slot(self.accounts@, user, j),
            decreases self.accounts@.len() - i,
        {
            if self.accounts[i].user == user {
                return Some(i);
            }
            i += 1;
        }
        None
    }

    /// The account of `user`; all zeros where they have no entry.
    fn account(&self, user: UserId) -> (r: Account)
        requires
            distinct(self.accounts@),
        ensures
            r@ == self@.accounts[user],
    {
        match self.find(user) {
            Some(k) => {
                proof {
                    lemma_slot(self.accounts@, user, k as int);
                }
                self.accounts[k].account
            },
            None => Account::zero(),
        }
    }

    /// Stores `account` as the account of `user`.
    fn put(&mut self, user: UserId, account: Account)
        requires
            distinct(old(self).accounts@),
        ensures
            distinct(final(self).accounts@),
            final(self).goals == old(self).goals,
            final(self).charity_pool == old(self).charity_pool,
            final(self)@ == old(self)@.with_account(user, account@),
    {
        let ghost before = self.accounts@;
        let entry = Entry { user, account };
        match self.find(user) {
            Some(k) => {
                self.accounts.set(k, entry);
                proof {
                    lemma_slot(self.accounts@, user, k as int);
                }
            },
            None => {
                self.accounts.push(entry);
                proof {
                    let after = self.accounts@;
                    let n = before.len() as int;
                    assert forall|i: int, j: int| 0 <= i < j < after.len() implies (
                    #[trigger] after[i]).user != (#[trigger] after[j]).user by {
                        if j == n {
                            assert(!is_slot(before, user, i));
                        }
                    }
                    assert(is_slot(after, user, n));
                    lemma_slot(after, user, n);
                }
            },
        }
        proof {
            let after = self.accounts@;
            assert forall|u: UserId| u != user implies account_of(after, u) == account_of(
                before,
                u,
            ) by {
                if holds(before, u) {
                    let c = choose|i: int| is_slot(before, u, i);
                    assert(is_slot(after, u, c));
                    lemma_slot(before, u, c);
                    lemma_slot(after, u, c);
                } else if holds(after, u) {
                    let c = choose|i: int| is_slot(after, u, i);
                    assert(is_slot(before, u, c));
                }
            }
            assert(self@.accounts =~= old(self)@.with_account(user, account@).accounts);
        }
    }

    /// The index of the goal with the given id, where there is one.
    fn goal_index(&self, id: Amount) -> (r: Option<usize>)
        ensures
            r.is_some() <==> self@.has_goal(id.value()),
            r.is_some() ==> r.unwrap() == id.value() - 1,
            self@.goals.len() <= usize::MAX,
    {
        if is_issued(id, self.next_goal_id()) {
            match id.to_u64() {
                Some(n) => Some((n - 1) as usize),
                None => unreached(),
            }
        } else {
            None
        }
    }

    /// Adds `amount` to what `user` has available.
    pub fn deposit_credits(&mut self, user: UserId, amount: Amount)
        requires
            old(self).wf(),
            old(self)@.deposit_fits(user, amount.value()),
        ensures
            final(self).wf(),
            final(self)@ == old(self)@.deposit(user, amount.value()),
    {
        match self.account(user).deposit(amount) {
            Ok(account) => {
                self.put(user, account);
                proof {
                    law_step_inv(old(self)@, Op::Deposit { user, amount: amount.value() });
                }
            },
            Err(_) => unreached(),
        }
    }

    /// Takes `amount` from what `user` has available, where they have that
    /// much; else changes nothing and returns `false`.
    pub fn withdraw_credits(&mut self, user: UserId, amount: Amount) -> (ok: bool)
        requires
            old(self).wf(),
        ensures
            final(self).wf(),
            ok == old(self)@.can_withdraw(user, amount.value()),
            final(self)@ == old(self)@.withdraw(user, amount.value()),
    {
        match self.account(user).withdraw(amount) {
            Ok(account) => {
                self.put(user, account);
                proof {
                    law_step_inv(old(self)@, Op::Withdraw { user, amount: amount.value() });
                }
                true
            },
            Err(_) => false,
        }
    }

    /// Locks `stake` of what `user` has available into a new pending goal and
    /// returns its id, the next in line. Where the user has less than `stake`
    /// available, changes nothing and returns 0.
    pub fn create_goal(
        &mut self,
        user: UserId,
        text: String,
        category: String,
        priority: String,
        stake: Amount,
        deadline: String,
    ) -> (id: Amount)
        requires
            old(self).wf(),
            old(self)@.create_goal_fits(user, stake.value()),
        ensures
            final(self).wf(),
            id.value() == old(self)@.created_id(user, stake.value()),
            final(self)@ == old(self)@.create_goal(
                user,
                text@,
                category@,
                priority@,
                stake.value(),
                deadline@,
            ),
    {
        let account = match self.account(user).stake(stake) {
            Ok(account) => account,
            Err(Refusal::Insufficient) => {
                return Amount::zero();
            },
            Err(_) => unreached(),
        };
        let id = match next_id(self.next_goal_id()) {
            Ok(id) => id,
            Err(_) => unreached(),
        };
        self.put(user, account);
        let goal = Goal {
            owner: user,
            text,
            category,
            priority,
            stake,
            deadline,
            status: Status::Pending,
        };
        let ghost g = goal@;
        self.goals.push(goal);
        proof {
            let t = old(self)@.create_goal(user, g.text, g.category, g.priority, g.stake, g.deadline);
            law_create_goal_inv(old(self)@, user, g.text, g.category, g.priority, g.stake, g.deadline);
            assert(self@.goals =~= t.goals);
            assert(self@.accounts =~= t.accounts);
        }
        id
    }

    /// Resolves a pending goal of `user` as completed: the stake goes back to
    /// what they have available and counts as earned, and the win extends
    /// their streak. Where the goal does not exist, is not theirs or is not
    /// pending, changes nothing and returns `false`.
    pub fn complete_goal(&mut self, user: UserId, goal_id: Amount) -> (ok: bool)
        requires
            old(self).wf(),
            old(self)@.complete_goal_fits(user, goal_id.value()),
        ensures
            final(self).wf(),
            ok == old(self)@.can_resolve(user, goal_id.value()),
            final(self)@ == old(self)@.complete_goal(user, goal_id.value()),
    {
        let idx = match self.pending_goal_of(user, goal_id) {
            Some(i) => i,
            None => {
                return false;
            },
        };
        let stake = self.goals[idx].stake;
        proof {
            lemma_pending_stake_bounded(self@.goals, idx as int);
            lemma_count_bounded(self@.goals, user, Status::Completed);
            assert(self@.account_consistent(user));
        }
        let account = match self.account(user).win(stake) {
            Ok(account) => account,
            Err(_) => unreached(),
        };
        self.goals[idx].status = Status::Completed;
        self.put(user, account);
        proof {
            let t = old(self)@.complete_goal(user, goal_id.value());
            law_resolve_inv(old(self)@, user, goal_id.value());
            assert(self@.goals =~= t.goals);
            assert(self@.accounts =~= t.accounts);
        }
        true
    }

    /// Resolves a pending goal of `user` as missed: the stake leaves their
    /// staked balance for the charity pool and counts as burned, and the loss
    /// ends their streak. Where the goal does not exist, is not theirs or is
    /// not pending, changes nothing and returns `false`.
    pub fn miss_goal(&mut self, user: UserId, goal_id: Amount) -> (ok: bool)
        requires
            old(self).wf(),
            old(self)@.miss_goal_fits(user, goal_id.value()),
        ensures
            final(self).wf(),
            ok == old(self)@.can_resolve(user, goal_id.value()),
            final(self)@ == old(self)@.miss_goal(user, goal_id.value()),
    {
        let idx = match self.pending_goal_of(user, goal_id) {
            Some(i) => i,
            None => {
                return false;
            },
        };
        let stake = self.goals[idx].stake;
        proof {
            lemma_pending_stake_bounded(self@.goals, idx as int);
            lemma_count_bounded(self@.goals, user, Status::Missed);
            assert(self@.account_consistent(user));
        }
        let account = match self.account(user).lose(stake) {
            Ok(account) => account,
            Err(_) => unreached(),
        };
        let pool = match self.charity_pool.checked_add(stake) {
            Some(pool) => pool,
            None => unreached(),
        };
        self.charity_pool = pool;
        self.goals[idx].status = Status::Missed;
        self.put(user, account);
        proof {
            let t = old(self)@.miss_goal(user, goal_id.value());
            law_resolve_inv(old(self)@, user, goal_id.value());
            assert(self@.goals =~= t.goals);
            assert(self@.accounts =~= t.accounts);
        }
        true
    }

    /// The index of the goal `goal_id`, where `user` may resolve it.
    fn pending_goal_of(&self, user: UserId, goal_id: Amount) -> (r: Option<usize>)
        ensures
            r.is_some() <==> self@.can_resolve(user, goal_id.value()),
            r.is_some() ==> r.unwrap() == goal_id.value() - 1 && r.unwrap() < self.goals@.len(),
            self@.goals.len() <= usize::MAX,
    {
        match self.goal_index(goal_id) {
            Some(i) => {
                if self.goals[i].resolvable_by(user) {
                    Some(i)
                } else {
                    None
                }
            },
            None => None,
        }
    }

    /// The balances of `user`; all zero for a user of whom nothing is recorded.
    pub fn balances_of(&self, user: UserId) -> (r: Balances)
        requires
            self.wf(),
        ensures
            r.available.value() == self@.accounts[user].available,
            r.staked.value() == self@.accounts[user].staked,
            r.earned_total.value() == self@.accounts[user].earned_total,
            r.burned_total.value() == self@.accounts[user].burned_total,
    {
        let a = self.account(user);
        Balances {
            available: a.available,
            staked: a.staked,
            earned_total: a.earned_total,
            burned_total: a.burned_total,
        }
    }

    /// The counters of `user`; all zero for a user of whom nothing is recorded.
    pub fn stats_of(&self, user: UserId) -> (r: Stats)
        requires
            self.wf(),
        ensures
            r.wins.value() == self@.accounts[user].wins,
            r.losses.value() == self@.accounts[user].losses,
            r.current_win_streak.value() == self@.accounts[user].current_win_streak,
            r.longest_win_streak.value() == self@.accounts[user].longest_win_streak,
    {
        let a = self.account(user);
        Stats {
            wins: a.wins,
            losses: a.losses,
            current_win_streak: a.current_win_streak,
            longest_win_streak: a.longest_win_streak,
        }
    }

    /// What the charity pool holds.
    pub fn charity_pool_total(&self) -> (r: Amount)
        ensures
            r.value() == self@.charity_pool,
    {
        self.charity_pool
    }

    /// The id that was issued last; 0 before the first goal.
    pub fn next_goal_id(&self) -> (r: Amount)
        ensures
            r.value() == self@.next_goal_id(),
            r.value() <= usize::MAX,
    {
        let n: usize = self.goals.len();
        Amount::from_u64(n as u64)
    }

    /// The goal with the given id; for an id that no goal has, nobody as the
    /// owner, empty strings, a stake of zero and the state pending.
    pub fn get_goal(&self, id: Amount) -> (r: Goal)
        ensures
            r@ == self@.goal(id.value()),
    {
        match self.goal_index(id) {
            Some(i) => {
                let g = &self.goals[i];
                Goal {
                    owner: g.owner,
                    text: g.text.clone(),
                    category: g.category.clone(),
                    priority: g.priority.clone(),
                    stake: g.stake,
                    deadline: g.deadline.clone(),
                    status: g.status,
                }
            },
            None => Goal {
                owner: UserId::nobody_id(),
                text: String::new(),
                category: String::new(),
                priority: String::new(),
                stake: Amount::zero(),
                deadline: String::new(),
                status: Status::Pending,
            },
        }
    }

    /// Whether a deposit of `amount` by `user` is within range.
    pub fn deposit_fits(&self, user: UserId, amount: Amount) -> (r: bool)
        requires
            self.wf(),
        ensures
            r == self@.deposit_fits(user, amount.value()),
    {
        self.account(user).deposit(amount).is_ok()
    }

    /// Whether `create_goal` by `user` with `stake` is within range.
    pub fn create_goal_fits(&self, user: UserId, stake: Amount) -> (r: bool)
        requires
            self.wf(),
        ensures
            r == self@.create_goal_fits(user, stake.value()),
    {
        match self.account(user).stake(stake) {
            Err(Refusal::Overflow) => false,
            _ => true,
        }
    }

    /// Whether `complete_goal` by `user` on `goal_id` is within range.
    pub fn complete_goal_fits(&self, user: UserId, goal_id: Amount) -> (r: bool)
        requires
            self.wf(),
        ensures
            r == self@.complete_goal_fits(user, goal_id.value()),
    {
        match self.pending_goal_of(user, goal_id) {
            Some(i) => {
                let stake = self.goals[i].stake;
                let a = self.account(user);
                a.available.checked_add(stake).is_some() && a.earned_total.checked_add(
                    stake,
                ).is_some()
            },
            None => true,
        }
    }

    /// Whether `miss_goal` by `user` on `goal_id` is within range.
    pub fn miss_goal_fits(&self, user: UserId, goal_id: Amount) -> (r: bool)
        requires
            self.wf(),
        ensures
            r == self@.miss_goal_fits(user, goal_id.value()),
    {
        match self.pending_goal_of(user, goal_id) {
            Some(i) => {
                let stake = self.goals[i].stake;
                let a = self.account(user);
                a.burned_total.checked_add(stake).is_some() && self.charity_pool.checked_add(
                    stake,
                ).is_some()
            },
            None => true,
        }
    }
}

} // verus!
