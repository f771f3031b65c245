//! What holds of every ledger that the operations can reach.

use vstd::prelude::*;
use crate::model::{GoalView, LedgerView, Op, Status, UserId};
use crate::model::{lemma_forfeited_push, lemma_forfeited_resolve, lemma_pending_stake_bounded};
use crate::model::{lemma_tally_push, lemma_tally_update};

verus! {

/// The empty ledger meets the invariant.
pub proof fn law_empty_inv()
    ensures
        LedgerView::empty().inv(),
{
    let s = LedgerView::empty();
    assert forall|u: UserId| #[trigger] s.account_consistent(u) by {}
}

/// Creating a goal keeps the invariant.
pub proof fn law_create_goal_inv(
    s: LedgerView,
    user: UserId,
    text: Seq<char>,
    category: Seq<char>,
    priority: Seq<char>,
    stake: nat,
    deadline: Seq<char>,
)
    requires
        s.inv(),
    ensures
        s.create_goal(user, text, category, priority, stake, deadline).inv(),
{
    let t = s.create_goal(user, text, category, priority, stake, deadline);
    if s.can_create_goal(user, stake) {
        let g = t.goals.last();
        assert(t.goals == s.goals.push(g));
        lemma_forfeited_push(s.goals, g);
        assert forall|u: UserId| #[trigger] t.account_consistent(u) by {
            assert(s.account_consistent(u));
            lemma_tally_push(s.goals, g, u, Status::Pending, true);
            lemma_tally_push(s.goals, g, u, Status::Completed, true);
            lemma_tally_push(s.goals, g, u, Status::Missed, true);
            lemma_tally_push(s.goals, g, u, Status::Completed, false);
            lemma_tally_push(s.goals, g, u, Status::Missed, false);
        }
        assert forall|u: UserId| #[trigger] t.accounts.dom().contains(u) by {
            assert(s.accounts.dom().contains(u));
        }
    }
}

/// Resolving a goal, either way, keeps the invariant.
pub proof fn law_resolve_inv(s: LedgerView, user: UserId, id: nat)
    requires
        s.inv(),
    ensures
        s.complete_goal(user, id).inv(),
        s.miss_goal(user, id).inv(),
{
    if s.can_resolve(user, id) {
        let i = id - 1;
        let c = s.complete_goal(user, id);
        let m = s.miss_goal(user, id);
        let gc = GoalView { status: Status::Completed, ..s.goals[i] };
        let gm = GoalView { status: Status::Missed, ..s.goals[i] };
        assert(c.goals == s.goals.update(i, gc));
        assert(m.goals == s.goals.update(i, gm));
        lemma_pending_stake_bounded(s.goals, i);
        lemma_forfeited_resolve(s.goals, i, Status::Completed);
        lemma_forfeited_resolve(s.goals, i, Status::Missed);
        assert(s.account_consistent(user));
        assert forall|u: UserId| #[trigger] c.account_consistent(u) by {
            assert(s.account_consistent(u));
            lemma_tally_update(s.goals, i, gc, u, Status::Pending, true);
            lemma_tally_update(s.goals, i, gc, u, Status::Completed, true);
            lemma_tally_update(s.goals, i, gc, u, Status::Missed, true);
            lemma_tally_update(s.goals, i, gc, u, Status::Completed, false);
            lemma_tally_update(s.goals, i, gc, u, Status::Missed, false);
        }
        assert forall|u: UserId| #[trigger] m.account_consistent(u) by {
            assert(s.account_consistent(u));
            lemma_tally_update(s.goals, i, gm, u, Status::Pending, true);
            lemma_tally_update(s.goals, i, gm, u, Status::Completed, true);
            lemma_tally_update(s.goals, i, gm, u, Status::Missed, true);
            lemma_tally_update(s.goals, i, gm, u, Status::Completed, false);
            lemma_tally_update(s.goals, i, gm, u, Status::Missed, false);
        }
        assert forall|u: UserId| #[trigger] c.accounts.dom().contains(u) by {
            assert(s.accounts.dom().contains(u));
        }
        assert forall|u: UserId| #[trigger] m.accounts.dom().contains(u) by {
            assert(s.accounts.dom().contains(u));
        }
    }
}

/// Every operation keeps the invariant.
pub proof fn law_step_inv(s: LedgerView, op: Op)
    requires
        s.inv(),
    ensures
        s.step(op).inv(),
{
    let t = s.step(op);
    match op {
        Op::Deposit { user, amount } => {
            assert forall|u: UserId| #[trigger] t.account_consistent(u) by {
                assert(s.account_consistent(u));
            }
            assert forall|u: UserId| #[trigger] t.accounts.dom().contains(u) by {
                assert(s.accounts.dom().contains(u));
            }
        },
        Op::Withdraw { user, amount } => {
            assert forall|u: UserId| #[trigger] t.account_consistent(u) by {
                assert(s.account_consistent(u));
            }
            assert forall|u: UserId| #[trigger] t.accounts.dom().contains(u) by {
                assert(s.accounts.dom().contains(u));
            }
        },
        Op::CreateGoal { user, text, category, priority, stake, deadline } => {
            law_create_goal_inv(s, user, text, category, priority, stake, deadline);
        },
        Op::CompleteGoal { user, id } => {
            law_resolve_inv(s, user, id);
        },
        Op::MissGoal { user, id } => {
            law_resolve_inv(s, user, id);
        },
    }
}

/// Every sequence of operations keeps the invariant: from the empty ledger
/// on, each user's staked balance, totals and counters agree with their
/// goals, and the charity pool holds exactly what was forfeited.
pub proof fn law_run_inv(s: LedgerView, ops: Seq<Op>)
    requires
        s.inv(),
    ensures
        s.run(ops).inv(),
    decreases ops.len(),
{
    if ops.len() > 0 {
        law_run_inv(s, ops.drop_last());
        law_step_inv(s.run(ops.drop_last()), ops.last());
    }
}

impl Op {
    /// The identity that asks for the operation.
    pub open spec fn actor(self) -> UserId {
        match self {
            Op::Deposit { user, .. } => user,
            Op::Withdraw { user, .. } => user,
            Op::CreateGoal { user, .. } => user,
            Op::CompleteGoal { user, .. } => user,
            Op::MissGoal { user, .. } => user,
        }
    }

    /// What the operation deposits: its amount for a deposit, else nothing.
    pub open spec fn deposits(self) -> nat {
        match self {
            Op::Deposit { amount, .. } => amount,
            _ => 0,
        }
    }

    /// What the operation withdraws from the ledger `s`: its amount for a
    /// withdrawal that succeeds, else nothing.
    pub open spec fn withdraws(self, s: LedgerView) -> nat {
        match self {
            Op::Withdraw { user, amount } => if s.can_withdraw(user, amount) {
                amount
            } else {
                0
            },
            _ => 0,
        }
    }
}

/// What the given users hold together: available and staked credits.
pub open spec fn holdings(s: LedgerView, users: Seq<UserId>) -> nat
    decreases users.len(),
{
    if users.len() == 0 {
        0
    } else {
        holdings(s, users.drop_last()) + s.accounts[users.last()].available
            + s.accounts[users.last()].staked
    }
}

/// What the operations deposit together.
pub open spec fn deposited(ops: Seq<Op>) -> nat
    decreases ops.len(),
{
    if ops.len() == 0 {
        0
    } else {
        deposited(ops.drop_last()) + ops.last().deposits()
    }
}

/// What the operations withdraw together when they run from the ledger `s`.
pub open spec fn withdrawn(s: LedgerView, ops: Seq<Op>) -> nat
    decreases ops.len(),
{
    if ops.len() == 0 {
        0
    } else {
        withdrawn(s, ops.drop_last()) + ops.last().withdraws(s.run(ops.drop_last()))
    }
}

/// What a pending goal stakes is part of what its owner has staked, so
/// resolving it never takes more from the staked credits than is there.
pub proof fn law_stake_covered(s: LedgerView, user: UserId, id: nat)
    requires
        s.inv(),
        s.can_resolve(user, id),
    ensures
        s.goals[id - 1].stake <= s.accounts[user].staked,
{
    lemma_pending_stake_bounded(s.goals, id - 1);
    assert(s.account_consistent(user));
}

/// The books of one account: what its user has available and staked, with
/// what they burned, changes by what the operation deposits less what it
/// withdraws. What was earned came from the user's own stake and adds
/// nothing.
pub proof fn law_account_books(s: LedgerView, op: Op)
    requires
        s.inv(),
    ensures
        ({
            let a = s.accounts[op.actor()];
            let b = s.step(op).accounts[op.actor()];
            b.available + b.staked + b.burned_total + op.withdraws(s) == a.available + a.staked
                + a.burned_total + op.deposits()
        }),
{
    match op {
        Op::CompleteGoal { user, id } => {
            if s.can_resolve(user, id) {
                law_stake_covered(s, user, id);
            }
        },
        Op::MissGoal { user, id } => {
            if s.can_resolve(user, id) {
                law_stake_covered(s, user, id);
            }
        },
        _ => {},
    }
}

/// Where two ledgers differ in the available and staked credits of `user`
/// at most, the holdings of a set of users differ by that difference, if
/// `user` is among them, and not at all if not.
pub proof fn lemma_holdings_one_changed(
    s: LedgerView,
    t: LedgerView,
    users: Seq<UserId>,
    user: UserId,
)
    requires
        users.no_duplicates(),
        forall|u: UserId|
            u != user ==> (#[trigger] t.accounts[u]).available == s.accounts[u].available
                && t.accounts[u].staked == s.accounts[u].staked,
    ensures
        users.contains(user) ==> holdings(t, users) + s.accounts[user].available
            + s.accounts[user].staked == holdings(s, users) + t.accounts[user].available
            + t.accounts[user].staked,
        !users.contains(user) ==> holdings(t, users) == holdings(s, users),
    decreases users.len(),
{
    if users.len() > 0 {
        let rest = users.drop_last();
        let n = users.len() - 1;
        assert forall|i: int, j: int| 0 <= i < rest.len() && 0 <= j < rest.len() && i != j implies rest[i]
            != rest[j] by {
            assert(rest[i] == users[i] && rest[j] == users[j]);
        }
        lemma_holdings_one_changed(s, t, rest, user);
        if users.last() == user {
            assert(users[n] == user);
            if rest.contains(user) {
                let i = choose|i: int| 0 <= i < rest.len() && rest[i] == user;
                assert(users[i] == users[n]);
            }
        } else {
            if users.contains(user) {
                let i = choose|i: int| 0 <= i < users.len() && users[i] == user;
                assert(rest[i] == user);
            }
            if rest.contains(user) {
                let i = choose|i: int| 0 <= i < rest.len() && rest[i] == user;
                assert(users[i] == user);
            }
        }
    }
}

/// Conservation, for one operation: what the users hold together with the
/// charity pool changes by what the operation deposits less what it
/// withdraws, and by nothing else. A forfeited stake leaves the holdings for
/// the pool.
pub proof fn law_step_conserves(s: LedgerView, op: Op, users: Seq<UserId>)
    requires
        s.inv(),
        users.no_duplicates(),
        users.contains(op.actor()),
    ensures
        holdings(s.step(op), users) + s.step(op).charity_pool + op.withdraws(s) == holdings(
            s,
            users,
        ) + s.charity_pool + op.deposits(),
{
    let t = s.step(op);
    let user = op.actor();
    law_account_books(s, op);
    assert forall|u: UserId| u != user implies (#[trigger] t.accounts[u]).available
        == s.accounts[u].available && t.accounts[u].staked == s.accounts[u].staked by {}
    lemma_holdings_one_changed(s, t, users, user);
}

/// Conservation, for every sequence of operations by a fixed set of users:
/// what they hold in the end, with the charity pool and what they withdrew,
/// is what they held at first, with the pool as it was and what they
/// deposited. So the holdings fall only by withdrawals and by stakes
/// forfeited to the pool.
pub proof fn law_run_conserves(s: LedgerView, ops: Seq<Op>, users: Seq<UserId>)
    requires
        s.inv(),
        users.no_duplicates(),
        forall|i: int| 0 <= i < ops.len() ==> users.contains(#[trigger] ops[i].actor()),
    ensures
        holdings(s.run(ops), users) + s.run(ops).charity_pool + withdrawn(s, ops) == holdings(
            s,
            users,
        ) + s.charity_pool + deposited(ops),
    decreases ops.len(),
{
    if ops.len() > 0 {
        let before = ops.drop_last();
        assert forall|i: int| 0 <= i < before.len() implies users.contains(
            #[trigger] before[i].actor(),
        ) by {
            assert(before[i] == ops[i]);
        }
        law_run_conserves(s, before, users);
        law_run_inv(s, before);
        assert(users.contains(ops[ops.len() - 1].actor()));
        law_step_conserves(s.run(before), ops.last(), users);
    }
}

/// The charity pool never shrinks.
pub proof fn law_pool_grows(s: LedgerView, op: Op)
    ensures
        s.step(op).charity_pool >= s.charity_pool,
{
}

/// A goal that was resolved stays as it is: whoever calls, neither
/// `complete_goal` nor `miss_goal` succeeds on it again, and neither changes
/// the ledger.
pub proof fn law_resolved_is_final(s: LedgerView, user: UserId, id: nat)
    requires
        s.has_goal(id),
        s.goals[id - 1].status != Status::Pending,
    ensures
        !s.can_resolve(user, id),
        s.complete_goal(user, id) == s,
        s.miss_goal(user, id) == s,
{
}

/// Once `complete_goal` or `miss_goal` has succeeded on a goal, the goal is
/// no longer pending, so a second call of either, by anyone, returns `false`
/// and changes nothing.
pub proof fn law_resolve_once(s: LedgerView, user: UserId, id: nat, again: UserId)
    requires
        s.can_resolve(user, id),
    ensures
        !s.complete_goal(user, id).can_resolve(again, id),
        !s.miss_goal(user, id).can_resolve(again, id),
        s.complete_goal(user, id).complete_goal(again, id) == s.complete_goal(user, id),
        s.complete_goal(user, id).miss_goal(again, id) == s.complete_goal(user, id),
        s.miss_goal(user, id).complete_goal(again, id) == s.miss_goal(user, id),
        s.miss_goal(user, id).miss_goal(again, id) == s.miss_goal(user, id),
{
}

/// No operation removes a goal, changes its owner, stake or texts, or moves
/// it out of a final state.
pub proof fn law_goal_kept(s: LedgerView, op: Op, id: nat)
    requires
        s.has_goal(id),
    ensures
        s.step(op).has_goal(id),
        s.step(op).goal(id) == (GoalView { status: s.step(op).goal(id).status, ..s.goal(id) }),
        s.goal(id).status != Status::Pending ==> s.step(op).goal(id) == s.goal(id),
{
}

/// A goal in a final state stays in it whatever operations follow.
pub proof fn law_final_status_kept(s: LedgerView, ops: Seq<Op>, id: nat)
    requires
        s.has_goal(id),
        s.goal(id).status != Status::Pending,
    ensures
        s.run(ops).has_goal(id),
        s.run(ops).goal(id) == s.goal(id),
    decreases ops.len(),
{
    if ops.len() > 0 {
        law_final_status_kept(s, ops.drop_last(), id);
        law_goal_kept(s.run(ops.drop_last()), ops.last(), id);
    }
}

/// A call of `create_goal` that fails returns 0 and consumes no id; one that
/// succeeds returns the id after the last one issued, which is then the last
/// one issued.
pub proof fn law_created_id(
    s: LedgerView,
    user: UserId,
    text: Seq<char>,
    category: Seq<char>,
    priority: Seq<char>,
    stake: nat,
    deadline: Seq<char>,
)
    ensures
        ({
            let t = s.create_goal(user, text, category, priority, stake, deadline);
            let id = s.created_id(user, stake);
            if s.can_create_goal(user, stake) {
                id == s.next_goal_id() + 1 && t.next_goal_id() == id
            } else {
                id == 0 && t == s
            }
        }),
{
}

/// No sequence of operations lowers the id that was issued last.
pub proof fn law_next_id_grows(s: LedgerView, ops: Seq<Op>)
    ensures
        s.run(ops).next_goal_id() >= s.next_goal_id(),
    decreases ops.len(),
{
    if ops.len() > 0 {
        law_next_id_grows(s, ops.drop_last());
    }
}

/// Ids strictly increase: a goal created after another, whatever happened
/// in between and however many calls failed, gets a larger id.
pub proof fn law_ids_increase(
    s: LedgerView,
    first: Op,
    between: Seq<Op>,
    user: UserId,
    stake: nat,
)
    requires
        first is CreateGoal,
        s.created_id(first->CreateGoal_user, first->CreateGoal_stake) != 0,
        s.step(first).run(between).created_id(user, stake) != 0,
    ensures
        s.step(first).run(between).created_id(user, stake) > s.created_id(
            first->CreateGoal_user,
            first->CreateGoal_stake,
        ),
{
    law_next_id_grows(s.step(first), between);
}

/// Only the owner resolves a goal: called by anyone else, or on an id that
/// no goal has, `complete_goal` and `miss_goal` return `false` and change
/// nothing, also where the goal is pending.
pub proof fn law_only_owner_resolves(s: LedgerView, user: UserId, id: nat)
    requires
        !s.has_goal(id) || s.goals[id - 1].owner != user,
    ensures
        !s.can_resolve(user, id),
        s.complete_goal(user, id) == s,
        s.miss_goal(user, id) == s,
{
}

/// The ledger after `user` called `complete_goal` on each of `ids` in turn.
pub open spec fn complete_all(s: LedgerView, user: UserId, ids: Seq<nat>) -> LedgerView
    decreases ids.len(),
{
    if ids.len() == 0 {
        s
    } else {
        complete_all(s, user, ids.drop_last()).complete_goal(user, ids.last())
    }
}

/// Whether each of those calls succeeded.
pub open spec fn all_complete(s: LedgerView, user: UserId, ids: Seq<nat>) -> bool
    decreases ids.len(),
{
    ids.len() == 0 || (all_complete(s, user, ids.drop_last()) && complete_all(
        s,
        user,
        ids.drop_last(),
    ).can_resolve(user, ids.last()))
}

/// A completion that succeeds extends the streak by one, and the longest
/// streak is then at least the current one and no shorter than before.
pub proof fn law_streak_after_complete(s: LedgerView, user: UserId, id: nat)
    requires
        s.can_resolve(user, id),
    ensures
        ({
            let a = s.accounts[user];
            let b = s.complete_goal(user, id).accounts[user];
            &&& b.current_win_streak == a.current_win_streak + 1
            &&& b.longest_win_streak >= b.current_win_streak
            &&& b.longest_win_streak >= a.longest_win_streak
            &&& b.wins == a.wins + 1
        }),
{
}

/// A miss that succeeds resets the streak to zero and leaves the longest
/// streak as it was.
pub proof fn law_streak_after_miss(s: LedgerView, user: UserId, id: nat)
    requires
        s.can_resolve(user, id),
    ensures
        s.miss_goal(user, id).accounts[user].current_win_streak == 0,
        s.miss_goal(user, id).accounts[user].longest_win_streak
            == s.accounts[user].longest_win_streak,
{
}

/// After N completions in a row that all succeed, the streak is N longer
/// than it was (N, from a streak of zero), and the longest streak is at
/// least the current one.
pub proof fn law_streak_counts(s: LedgerView, user: UserId, ids: Seq<nat>)
    requires
        all_complete(s, user, ids),
    ensures
        complete_all(s, user, ids).accounts[user].current_win_streak
            == s.accounts[user].current_win_streak + ids.len(),
        ids.len() > 0 ==> complete_all(s, user, ids).accounts[user].longest_win_streak
            >= complete_all(s, user, ids).accounts[user].current_win_streak,
        complete_all(s, user, ids).accounts[user].longest_win_streak
            >= s.accounts[user].longest_win_streak,
    decreases ids.len(),
{
    if ids.len() > 0 {
        law_streak_counts(s, user, ids.drop_last());
        law_streak_after_complete(complete_all(s, user, ids.drop_last()), user, ids.last());
    }
}

/// What another user does changes nothing in an account.
pub proof fn law_accounts_isolated(s: LedgerView, op: Op, other: UserId)
    requires
        other != op.actor(),
    ensures
        s.step(op).accounts[other] == s.accounts[other],
{
}

} // verus!
