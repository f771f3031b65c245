//! The mathematical model of the ledger: what a ledger is, and what each
//! operation does to it, over unbounded numbers.

use vstd::prelude::*;
use crate::amount::max_amount;

verus! {

/// The identity of a user: 160 bits, the leading 32 in `hi`.
#[derive(Clone, Copy, Debug, PartialEq, Eq, Hash, Structural)]
pub struct UserId {
    pub hi: u32,
    pub lo: u128,
}

/// The state of a goal. `Completed` and `Missed` are final.
#[derive(Clone, Copy, Debug, PartialEq, Eq, Structural)]
pub enum Status {
    Pending,
    Completed,
    Missed,
}

/// What a ledger records of one user.
pub struct AccountView {
    pub available: nat,
    pub staked: nat,
    pub earned_total: nat,
    pub burned_total: nat,
    pub wins: nat,
    pub losses: nat,
    pub current_win_streak: nat,
    pub longest_win_streak: nat,
}

/// What a ledger records of one goal.
pub struct GoalView {
    pub owner: UserId,
    pub text: Seq<char>,
    pub category: Seq<char>,
    pub priority: Seq<char>,
    pub stake: nat,
    pub deadline: Seq<char>,
    pub status: Status,
}

/// A ledger: one account for every identity, the goals in the order of their
/// ids (the goal with id `n` stands at index `n - 1`), and the charity pool.
pub struct LedgerView {
    pub accounts: Map<UserId, AccountView>,
    pub goals: Seq<GoalView>,
    pub charity_pool: nat,
}

/// One operation on a ledger, with the identity that asks for it.
pub enum Op {
    Deposit { user: UserId, amount: nat },
    Withdraw { user: UserId, amount: nat },
    CreateGoal {
        user: UserId,
        text: Seq<char>,
        category: Seq<char>,
        priority: Seq<char>,
        stake: nat,
        deadline: Seq<char>,
    },
    CompleteGoal { user: UserId, id: nat },
    MissGoal { user: UserId, id: nat },
}

impl UserId {
    /// The identity that no caller has; the owner reported for an unknown goal.
    pub open spec fn nobody() -> UserId {
        UserId { hi: 0, lo: 0 }
    }

    /// The identity that no caller has.
    pub fn nobody_id() -> (r: UserId)
        ensures
            r == UserId::nobody(),
    {
        UserId { hi: 0, lo: 0 }
    }
}

impl Status {
    /// The number that stands for the state on the wire: 0 for pending, 1 for
    /// completed, 2 for missed.
    pub open spec fn code_of(self) -> u8 {
        match self {
            Status::Pending => 0u8,
            Status::Completed => 1u8,
            Status::Missed => 2u8,
        }
    }

    pub fn code(self) -> (r: u8)
        ensures
            r == self.code_of(),
    {
        match self {
            Status::Pending => 0,
            Status::Completed => 1,
            Status::Missed => 2,
        }
    }

    /// The state that a number on the wire stands for, where it stands for one.
    pub fn from_code(code: u8) -> (r: Option<Status>)
        ensures
            r.is_some() <==> code <= 2,
            r.is_some() ==> r.unwrap().code_of() == code,
    {
        if code == 0 {
            Some(Status::Pending)
        } else if code == 1 {
            Some(Status::Completed)
        } else if code == 2 {
            Some(Status::Missed)
        } else {
            None
        }
    }
}

impl AccountView {
    /// The account of a user of whom nothing was recorded yet.
    pub open spec fn zero() -> AccountView {
        AccountView {
            available: 0,
            staked: 0,
            earned_total: 0,
            burned_total: 0,
            wins: 0,
            losses: 0,
            current_win_streak: 0,
            longest_win_streak: 0,
        }
    }

    /// The account after a deposit of `amount`.
    pub open spec fn credit(self, amount: nat) -> AccountView {
        AccountView { available: self.available + amount, ..self }
    }

    /// The account after a withdrawal of `amount`, which it has available.
    pub open spec fn debit(self, amount: nat) -> AccountView {
        AccountView { available: (self.available - amount) as nat, ..self }
    }

    /// The account after `stake`, which it has available, was locked in a goal.
    pub open spec fn lock(self, stake: nat) -> AccountView {
        AccountView {
            available: (self.available - stake) as nat,
            staked: self.staked + stake,
            ..self
        }
    }

    /// The account after a goal with `stake` was completed: the stake goes
    /// back to the available credits and counts as earned, and the win
    /// extends the streak; the longest streak follows where the new streak
    /// is strictly longer.
    pub open spec fn win(self, stake: nat) -> AccountView {
        let streak = self.current_win_streak + 1;
        AccountView {
            available: self.available + stake,
            staked: if stake <= self.staked {
                (self.staked - stake) as nat
            } else {
                0
            },
            earned_total: self.earned_total + stake,
            wins: self.wins + 1,
            current_win_streak: streak,
            longest_win_streak: if streak > self.longest_win_streak {
                streak
            } else {
                self.longest_win_streak
            },
            ..self
        }
    }

    /// The account after a goal with `stake` was missed: the stake leaves
    /// the staked credits and counts as burned, and the loss ends the streak.
    pub open spec fn lose(self, stake: nat) -> AccountView {
        AccountView {
            staked: if stake <= self.staked {
                (self.staked - stake) as nat
            } else {
                0
            },
            burned_total: self.burned_total + stake,
            losses: self.losses + 1,
            current_win_streak: 0,
            ..self
        }
    }

    /// Whether a deposit of `amount` keeps the account within 256 bits.
    pub open spec fn credit_fits(self, amount: nat) -> bool {
        self.available + amount <= max_amount()
    }

    /// Whether `stake` can be locked: the account has it available, and what
    /// is staked stays within 256 bits.
    pub open spec fn lock_fits(self, stake: nat) -> bool {
        stake <= self.available && self.staked + stake <= max_amount()
    }

    /// Whether a win of `stake` can be booked: that much is staked, and the
    /// balances and counters stay within 256 bits.
    pub open spec fn win_fits(self, stake: nat) -> bool {
        &&& stake <= self.staked
        &&& self.available + stake <= max_amount()
        &&& self.earned_total + stake <= max_amount()
        &&& self.wins + 1 <= max_amount()
        &&& self.current_win_streak + 1 <= max_amount()
    }

    /// Whether a loss of `stake` can be booked: that much is staked, and the
    /// burned total and the counter stay within 256 bits.
    pub open spec fn lose_fits(self, stake: nat) -> bool {
        &&& stake <= self.staked
        &&& self.burned_total + stake <= max_amount()
        &&& self.losses + 1 <= max_amount()
    }
}

impl GoalView {
    /// What is reported for an id that no goal has.
    pub open spec fn absent() -> GoalView {
        GoalView {
            owner: UserId::nobody(),
            text: Seq::empty(),
            category: Seq::empty(),
            priority: Seq::empty(),
            stake: 0,
            deadline: Seq::empty(),
            status: Status::Pending,
        }
    }

    /// Whether `user` may resolve this goal: it is theirs and still pending.
    pub open spec fn resolvable_by(self, user: UserId) -> bool {
        self.owner == user && self.status == Status::Pending
    }

    /// What this goal adds to a tally for `user` and `status`: its stake or,
    /// where goals are counted, one; nothing where it is another user's or in
    /// another state.
    pub open spec fn weight(self, user: UserId, status: Status, by_stake: bool) -> nat {
        if self.owner == user && self.status == status {
            if by_stake {
                self.stake
            } else {
                1
            }
        } else {
            0
        }
    }
}

/// The sum of the stakes (or, with `by_stake` false, the number) of the goals
/// that `user` owns and that are in state `status`.
pub open spec fn tally(goals: Seq<GoalView>, user: UserId, status: Status, by_stake: bool) -> nat
    decreases goals.len(),
{
    if goals.len() == 0 {
        0
    } else {
        tally(goals.drop_last(), user, status, by_stake) + goals.last().weight(
            user,
            status,
            by_stake,
        )
    }
}

/// The sum of the stakes of all missed goals.
pub open spec fn forfeited(goals: Seq<GoalView>) -> nat
    decreases goals.len(),
{
    if goals.len() == 0 {
        0
    } else {
        forfeited(goals.drop_last()) + if goals.last().status == Status::Missed {
            goals.last().stake
        } else {
            0
        }
    }
}

impl LedgerView {
    /// The ledger before anything happened.
    pub open spec fn empty() -> LedgerView {
        LedgerView {
            accounts: Map::new(|u: UserId| true, |u: UserId| AccountView::zero()),
            goals: Seq::empty(),
            charity_pool: 0,
        }
    }

    /// The id that was issued last; 0 before the first goal.
    pub open spec fn next_goal_id(self) -> nat {
        self.goals.len()
    }

    pub open spec fn has_goal(self, id: nat) -> bool {
        1 <= id <= self.goals.len()
    }

    /// The goal with the given id; all defaults where there is none.
    pub open spec fn goal(self, id: nat) -> GoalView {
        if self.has_goal(id) {
            self.goals[id - 1]
        } else {
            GoalView::absent()
        }
    }

    /// The ledger with the account of `user` replaced.
    pub open spec fn with_account(self, user: UserId, account: AccountView) -> LedgerView {
        LedgerView { accounts: self.accounts.insert(user, account), ..self }
    }

    pub open spec fn deposit(self, user: UserId, amount: nat) -> LedgerView {
        self.with_account(user, self.accounts[user].credit(amount))
    }

    pub open spec fn can_withdraw(self, user: UserId, amount: nat) -> bool {
        amount <= self.accounts[user].available
    }

    pub open spec fn withdraw(self, user: UserId, amount: nat) -> LedgerView {
        if self.can_withdraw(user, amount) {
            self.with_account(user, self.accounts[user].debit(amount))
        } else {
            self
        }
    }

    pub open spec fn can_create_goal(self, user: UserId, stake: nat) -> bool {
        stake <= self.accounts[user].available
    }

    /// The id that `create_goal` returns: the next one, or 0 where the stake
    /// is more than the user has available.
    pub open spec fn created_id(self, user: UserId, stake: nat) -> nat {
        if self.can_create_goal(user, stake) {
            self.goals.len() + 1
        } else {
            0
        }
    }

    pub open spec fn create_goal(
        self,
        user: UserId,
        text: Seq<char>,
        category: Seq<char>,
        priority: Seq<char>,
        stake: nat,
        deadline: Seq<char>,
    ) -> LedgerView {
        if self.can_create_goal(user, stake) {
            LedgerView {
                accounts: self.accounts.insert(user, self.accounts[user].lock(stake)),
                goals: self.goals.push(
                    GoalView {
                        owner: user,
                        text,
                        category,
                        priority,
                        stake,
                        deadline,
                        status: Status::Pending,
                    },
                ),
                ..self
            }
        } else {
            self
        }
    }

    /// Whether `user` may resolve the goal `id`: it exists, is theirs and is
    /// still pending.
    pub open spec fn can_resolve(self, user: UserId, id: nat) -> bool {
        &&& self.has_goal(id)
        &&& self.goals[id - 1].resolvable_by(user)
    }

    /// The goals with the state of goal `id` replaced.
    pub open spec fn goals_with_status(self, id: nat, status: Status) -> Seq<GoalView> {
        self.goals.update(id - 1, GoalView { status, ..self.goals[id - 1] })
    }

    pub open spec fn complete_goal(self, user: UserId, id: nat) -> LedgerView {
        if self.can_resolve(user, id) {
            let stake = self.goals[id - 1].stake;
            LedgerView {
                accounts: self.accounts.insert(user, self.accounts[user].win(stake)),
                goals: self.goals_with_status(id, Status::Completed),
                ..self
            }
        } else {
            self
        }
    }

    pub open spec fn miss_goal(self, user: UserId, id: nat) -> LedgerView {
        if self.can_resolve(user, id) {
            let stake = self.goals[id - 1].stake;
            LedgerView {
                accounts: self.accounts.insert(user, self.accounts[user].lose(stake)),
                goals: self.goals_with_status(id, Status::Missed),
                charity_pool: self.charity_pool + stake,
            }
        } else {
            self
        }
    }

    /// Whether a deposit keeps the available balance within 256 bits.
    pub open spec fn deposit_fits(self, user: UserId, amount: nat) -> bool {
        self.accounts[user].credit_fits(amount)
    }

    /// Whether creating a goal keeps the staked balance within 256 bits.
    /// A call that fails for want of credits always fits.
    pub open spec fn create_goal_fits(self, user: UserId, stake: nat) -> bool {
        self.can_create_goal(user, stake) ==> self.accounts[user].staked + stake <= max_amount()
    }

    /// Whether completing a goal keeps the available balance and the earned
    /// total within 256 bits. A call that fails always fits.
    pub open spec fn complete_goal_fits(self, user: UserId, id: nat) -> bool {
        self.can_resolve(user, id) ==> {
            &&& self.accounts[user].available + self.goals[id - 1].stake <= max_amount()
            &&& self.accounts[user].earned_total + self.goals[id - 1].stake <= max_amount()
        }
    }

    /// Whether missing a goal keeps the burned total and the charity pool
    /// within 256 bits. A call that fails always fits.
    pub open spec fn miss_goal_fits(self, user: UserId, id: nat) -> bool {
        self.can_resolve(user, id) ==> {
            &&& self.accounts[user].burned_total + self.goals[id - 1].stake <= max_amount()
            &&& self.charity_pool + self.goals[id - 1].stake <= max_amount()
        }
    }

    /// The ledger after one operation.
    pub open spec fn step(self, op: Op) -> LedgerView {
        match op {
            Op::Deposit { user, amount } => self.deposit(user, amount),
            Op::Withdraw { user, amount } => self.withdraw(user, amount),
            Op::CreateGoal { user, text, category, priority, stake, deadline } => self.create_goal(
                user,
                text,
                category,
                priority,
                stake,
                deadline,
            ),
            Op::CompleteGoal { user, id } => self.complete_goal(user, id),
            Op::MissGoal { user, id } => self.miss_goal(user, id),
        }
    }

    /// The ledger after a sequence of operations, the first one first.
    pub open spec fn run(self, ops: Seq<Op>) -> LedgerView
        decreases ops.len(),
    {
        if ops.len() == 0 {
            self
        } else {
            self.run(ops.drop_last()).step(ops.last())
        }
    }

    /// The account of `user` agrees with the goals: what is staked is what
    /// their pending goals lock, what was earned and burned is what their
    /// completed and missed goals staked, wins and losses count those goals,
    /// and no streak is longer than the longest, nor that than the wins.
    pub open spec fn account_consistent(self, user: UserId) -> bool {
        let a = self.accounts[user];
        &&& a.staked == tally(self.goals, user, Status::Pending, true)
        &&& a.earned_total == tally(self.goals, user, Status::Completed, true)
        &&& a.burned_total == tally(self.goals, user, Status::Missed, true)
        &&& a.wins == tally(self.goals, user, Status::Completed, false)
        &&& a.losses == tally(self.goals, user, Status::Missed, false)
        &&& a.current_win_streak <= a.longest_win_streak <= a.wins
    }

    /// The invariant of every ledger that the operations can reach.
    pub open spec fn inv(self) -> bool {
        &&& forall|u: UserId| #[trigger] self.accounts.dom().contains(u)
        &&& forall|u: UserId| #[trigger] self.account_consistent(u)
        &&& self.charity_pool == forfeited(self.goals)
    }
}

/// A tally over goals with one more goal at the end.
pub proof fn lemma_tally_push(
    goals: Seq<GoalView>,
    g: GoalView,
    user: UserId,
    status: Status,
    by_stake: bool,
)
    ensures
        tally(goals.push(g), user, status, by_stake) == tally(goals, user, status, by_stake)
            + g.weight(user, status, by_stake),
{
    assert(goals.push(g).drop_last() =~= goals);
}

/// A tally over goals with the goal at index `i` replaced: the old goal's
/// weight leaves and the new one's comes in.
pub proof fn lemma_tally_update(
    goals: Seq<GoalView>,
    i: int,
    g: GoalView,
    user: UserId,
    status: Status,
    by_stake: bool,
)
    requires
        0 <= i < goals.len(),
    ensures
        tally(goals.update(i, g), user, status, by_stake) + goals[i].weight(user, status, by_stake)
            == tally(goals, user, status, by_stake) + g.weight(user, status, by_stake),
    decreases goals.len(),
{
    let after = goals.update(i, g);
    if i == goals.len() - 1 {
        assert(after.drop_last() =~= goals.drop_last());
    } else {
        assert(after.drop_last() =~= goals.drop_last().update(i, g));
        lemma_tally_update(goals.drop_last(), i, g, user, status, by_stake);
    }
}

/// No more goals are counted than there are.
pub proof fn lemma_count_bounded(goals: Seq<GoalView>, user: UserId, status: Status)
    ensures
        tally(goals, user, status, false) <= goals.len(),
    decreases goals.len(),
{
    if goals.len() > 0 {
        lemma_count_bounded(goals.drop_last(), user, status);
    }
}

/// A pending goal's stake is part of what its owner has staked.
pub proof fn lemma_pending_stake_bounded(goals: Seq<GoalView>, i: int)
    requires
        0 <= i < goals.len(),
        goals[i].status == Status::Pending,
    ensures
        goals[i].stake <= tally(goals, goals[i].owner, Status::Pending, true),
    decreases goals.len(),
{
    if i < goals.len() - 1 {
        lemma_pending_stake_bounded(goals.drop_last(), i);
    }
}

/// The forfeited sum over goals with one more goal at the end.
pub proof fn lemma_forfeited_push(goals: Seq<GoalView>, g: GoalView)
    ensures
        forfeited(goals.push(g)) == forfeited(goals) + if g.status == Status::Missed {
            g.stake
        } else {
            0
        },
{
    assert(goals.push(g).drop_last() =~= goals);
}

/// The forfeited sum after a pending goal changed its state.
pub proof fn lemma_forfeited_resolve(goals: Seq<GoalView>, i: int, status: Status)
    requires
        0 <= i < goals.len(),
        goals[i].status == Status::Pending,
    ensures
        forfeited(goals.update(i, GoalView { status, ..goals[i] })) == forfeited(goals)
            + if status == Status::Missed {
            goals[i].stake
        } else {
            0
        },
    decreases goals.len(),
{
    let g = GoalView { status, ..goals[i] };
    let after = goals.update(i, g);
    if i == goals.len() - 1 {
        assert(after.drop_last() =~= goals.drop_last());
    } else {
        assert(after.drop_last() =~= goals.drop_last().update(i, g));
        lemma_forfeited_resolve(goals.drop_last(), i, status);
    }
}

} // verus!
