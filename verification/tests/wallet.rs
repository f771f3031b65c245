use resolve_wallet::amount::Amount;
use resolve_wallet::ledger::{Goal, ResolveWallet};
use resolve_wallet::model::{Status, UserId};

fn amt(n: u64) -> Amount {
    Amount::from_u64(n)
}

fn user(n: u128) -> UserId {
    UserId { hi: 7, lo: n }
}

fn new_goal(l: &mut ResolveWallet, who: UserId, stake: u64) -> Amount {
    l.create_goal(
        who,
        String::from("run 5k"),
        String::from("health"),
        String::from("high"),
        amt(stake),
        String::from("2030-01-01"),
    )
}

fn balances(l: &ResolveWallet, who: UserId) -> (Amount, Amount, Amount, Amount) {
    let b = l.balances_of(who);
    (b.available, b.staked, b.earned_total, b.burned_total)
}

fn stats(l: &ResolveWallet, who: UserId) -> (Amount, Amount, Amount, Amount) {
    let s = l.stats_of(who);
    (s.wins, s.losses, s.current_win_streak, s.longest_win_streak)
}

#[test]
fn scenario_stake_complete_then_miss() {
    let a = user(1);
    let mut l = ResolveWallet::new();
    l.deposit_credits(a, amt(100));
    let id = new_goal(&mut l, a, 40);
    assert_eq!(id, amt(1));
    assert_eq!(balances(&l, a), (amt(60), amt(40), amt(0), amt(0)));

    assert!(l.complete_goal(a, id));
    assert_eq!(balances(&l, a), (amt(100), amt(0), amt(40), amt(0)));
    assert_eq!(stats(&l, a), (amt(1), amt(0), amt(1), amt(1)));

    let id2 = new_goal(&mut l, a, 50);
    assert_eq!(id2, amt(2));
    assert_eq!(balances(&l, a), (amt(50), amt(50), amt(40), amt(0)));

    assert!(l.miss_goal(a, id2));
    assert_eq!(balances(&l, a), (amt(50), amt(0), amt(40), amt(50)));
    assert_eq!(l.charity_pool_total(), amt(50));
    assert_eq!(stats(&l, a), (amt(1), amt(1), amt(0), amt(1)));
}

#[test]
fn create_goal_without_enough_credits_changes_nothing() {
    let b = user(2);
    let mut l = ResolveWallet::new();
    l.deposit_credits(b, amt(10));
    let id = new_goal(&mut l, b, 20);
    assert_eq!(id, amt(0));
    assert!(id.is_zero());
    assert_eq!(balances(&l, b), (amt(10), amt(0), amt(0), amt(0)));
    assert_eq!(stats(&l, b), (amt(0), amt(0), amt(0), amt(0)));
    assert_eq!(l.next_goal_id(), amt(0));
    assert_eq!(l.get_goal(amt(1)).owner, UserId { hi: 0, lo: 0 });
}

#[test]
fn new_ledger_is_empty() {
    let l = ResolveWallet::new();
    assert_eq!(l.charity_pool_total(), amt(0));
    assert_eq!(l.next_goal_id(), amt(0));
    assert_eq!(balances(&l, user(9)), (amt(0), amt(0), amt(0), amt(0)));
    assert_eq!(stats(&l, user(9)), (amt(0), amt(0), amt(0), amt(0)));
}

#[test]
fn deposit_adds_to_available_only() {
    let a = user(1);
    let mut l = ResolveWallet::new();
    l.deposit_credits(a, amt(5));
    l.deposit_credits(a, amt(7));
    assert_eq!(balances(&l, a), (amt(12), amt(0), amt(0), amt(0)));
    assert_eq!(balances(&l, user(2)), (amt(0), amt(0), amt(0), amt(0)));
}

#[test]
fn deposit_of_zero_for_unknown_user() {
    let a = user(1);
    let mut l = ResolveWallet::new();
    l.deposit_credits(a, amt(0));
    assert_eq!(balances(&l, a), (amt(0), amt(0), amt(0), amt(0)));
}

#[test]
fn withdraw_within_balance() {
    let a = user(1);
    let mut l = ResolveWallet::new();
    l.deposit_credits(a, amt(30));
    assert!(l.withdraw_credits(a, amt(12)));
    assert_eq!(balances(&l, a), (amt(18), amt(0), amt(0), amt(0)));
    assert!(l.withdraw_credits(a, amt(18)));
    assert_eq!(balances(&l, a), (amt(0), amt(0), amt(0), amt(0)));
}

#[test]
fn withdraw_more_than_available_is_refused() {
    let a = user(1);
    let mut l = ResolveWallet::new();
    l.deposit_credits(a, amt(30));
    assert!(!l.withdraw_credits(a, amt(31)));
    assert_eq!(balances(&l, a), (amt(30), amt(0), amt(0), amt(0)));
    assert!(!l.withdraw_credits(user(2), amt(1)));
    assert!(l.withdraw_credits(user(2), amt(0)));
}

#[test]
fn withdraw_cannot_touch_staked_credits() {
    let a = user(1);
    let mut l = ResolveWallet::new();
    l.deposit_credits(a, amt(30));
    assert_eq!(new_goal(&mut l, a, 25), amt(1));
    assert!(!l.withdraw_credits(a, amt(6)));
    assert!(l.withdraw_credits(a, amt(5)));
    assert_eq!(balances(&l, a), (amt(0), amt(25), amt(0), amt(0)));
}

#[test]
fn create_goal_stores_the_record() {
    let a = user(1);
    let mut l = ResolveWallet::new();
    l.deposit_credits(a, amt(10));
    let id = new_goal(&mut l, a, 10);
    let g: Goal = l.get_goal(id);
    assert_eq!(g.owner, a);
    assert_eq!(g.text, "run 5k");
    assert_eq!(g.category, "health");
    assert_eq!(g.priority, "high");
    assert_eq!(g.stake, amt(10));
    assert_eq!(g.deadline, "2030-01-01");
    assert_eq!(g.status, Status::Pending);
    assert_eq!(l.next_goal_id(), amt(1));
}

#[test]
fn create_goal_with_zero_stake_for_unknown_user() {
    let a = user(1);
    let mut l = ResolveWallet::new();
    assert_eq!(new_goal(&mut l, a, 0), amt(1));
    assert!(l.complete_goal(a, amt(1)));
    assert_eq!(balances(&l, a), (amt(0), amt(0), amt(0), amt(0)));
    assert_eq!(stats(&l, a), (amt(1), amt(0), amt(1), amt(1)));
}

#[test]
fn unknown_goal_reads_as_defaults() {
    let a = user(1);
    let mut l = ResolveWallet::new();
    l.deposit_credits(a, amt(10));
    new_goal(&mut l, a, 3);
    for id in [amt(0), amt(2), Amount { w0: 1, w1: 1, w2: 0, w3: 0 }] {
        let g = l.get_goal(id);
        assert_eq!(g.owner, UserId::nobody_id());
        assert_eq!(g.text, "");
        assert_eq!(g.category, "");
        assert_eq!(g.priority, "");
        assert_eq!(g.stake, amt(0));
        assert_eq!(g.deadline, "");
        assert_eq!(g.status.code(), 0);
    }
}

#[test]
fn status_codes() {
    assert_eq!(Status::Pending.code(), 0);
    assert_eq!(Status::Completed.code(), 1);
    assert_eq!(Status::Missed.code(), 2);
}

#[test]
fn resolved_goal_reports_its_status() {
    let a = user(1);
    let mut l = ResolveWallet::new();
    l.deposit_credits(a, amt(10));
    let g1 = new_goal(&mut l, a, 3);
    let g2 = new_goal(&mut l, a, 4);
    assert!(l.complete_goal(a, g1));
    assert!(l.miss_goal(a, g2));
    assert_eq!(l.get_goal(g1).status, Status::Completed);
    assert_eq!(l.get_goal(g2).status, Status::Missed);
    assert_eq!(l.get_goal(g1).stake, amt(3));
    assert_eq!(l.get_goal(g2).owner, a);
}

#[test]
fn second_resolution_is_refused() {
    let a = user(1);
    let mut l = ResolveWallet::new();
    l.deposit_credits(a, amt(100));
    let g1 = new_goal(&mut l, a, 30);
    let g2 = new_goal(&mut l, a, 20);
    assert!(l.complete_goal(a, g1));
    assert!(l.miss_goal(a, g2));
    let b = balances(&l, a);
    let s = stats(&l, a);
    let pool = l.charity_pool_total();
    assert!(!l.complete_goal(a, g1));
    assert!(!l.miss_goal(a, g1));
    assert!(!l.complete_goal(a, g2));
    assert!(!l.miss_goal(a, g2));
    assert_eq!(balances(&l, a), b);
    assert_eq!(stats(&l, a), s);
    assert_eq!(l.charity_pool_total(), pool);
    assert_eq!(l.get_goal(g1).status, Status::Completed);
    assert_eq!(l.get_goal(g2).status, Status::Missed);
}

#[test]
fn ids_increase_and_failures_consume_none() {
    let a = user(1);
    let b = user(2);
    let mut l = ResolveWallet::new();
    l.deposit_credits(a, amt(10));
    l.deposit_credits(b, amt(10));
    assert_eq!(new_goal(&mut l, a, 4), amt(1));
    assert_eq!(new_goal(&mut l, b, 11), amt(0));
    assert_eq!(new_goal(&mut l, b, 11), amt(0));
    assert_eq!(l.next_goal_id(), amt(1));
    assert_eq!(new_goal(&mut l, b, 10), amt(2));
    assert_eq!(new_goal(&mut l, a, 7), amt(0));
    assert_eq!(new_goal(&mut l, a, 6), amt(3));
    assert_eq!(l.next_goal_id(), amt(3));
}

#[test]
fn only_the_owner_resolves() {
    let a = user(1);
    let b = user(2);
    let mut l = ResolveWallet::new();
    l.deposit_credits(a, amt(10));
    l.deposit_credits(b, amt(10));
    let id = new_goal(&mut l, a, 4);
    assert!(!l.complete_goal(b, id));
    assert!(!l.miss_goal(b, id));
    assert_eq!(balances(&l, a), (amt(6), amt(4), amt(0), amt(0)));
    assert_eq!(balances(&l, b), (amt(10), amt(0), amt(0), amt(0)));
    assert_eq!(stats(&l, b), (amt(0), amt(0), amt(0), amt(0)));
    assert_eq!(l.charity_pool_total(), amt(0));
    assert_eq!(l.get_goal(id).status, Status::Pending);
    assert!(l.complete_goal(a, id));
}

#[test]
fn nobody_cannot_resolve_an_unknown_goal() {
    let mut l = ResolveWallet::new();
    let nobody = UserId::nobody_id();
    assert!(!l.complete_goal(nobody, amt(0)));
    assert!(!l.complete_goal(nobody, amt(1)));
    assert!(!l.miss_goal(nobody, amt(5)));
    assert!(!l.miss_goal(nobody, Amount { w0: 1, w1: 0, w2: 0, w3: 1 }));
    assert_eq!(stats(&l, nobody), (amt(0), amt(0), amt(0), amt(0)));
    assert_eq!(l.charity_pool_total(), amt(0));
}

#[test]
fn streak_counts_wins_and_resets_on_a_miss() {
    let a = user(1);
    let mut l = ResolveWallet::new();
    l.deposit_credits(a, amt(100));
    for n in 1..=3u64 {
        let id = new_goal(&mut l, a, 1);
        assert!(l.complete_goal(a, id));
        assert_eq!(stats(&l, a), (amt(n), amt(0), amt(n), amt(n)));
    }
    let id = new_goal(&mut l, a, 1);
    assert!(l.miss_goal(a, id));
    assert_eq!(stats(&l, a), (amt(3), amt(1), amt(0), amt(3)));
    for n in 1..=2u64 {
        let id = new_goal(&mut l, a, 1);
        assert!(l.complete_goal(a, id));
        assert_eq!(stats(&l, a), (amt(3 + n), amt(1), amt(n), amt(3)));
    }
    for n in 3..=4u64 {
        let id = new_goal(&mut l, a, 1);
        assert!(l.complete_goal(a, id));
        assert_eq!(stats(&l, a), (amt(3 + n), amt(1), amt(n), amt(n.max(3))));
    }
}

#[test]
fn credits_are_conserved() {
    let a = user(1);
    let b = user(2);
    let mut l = ResolveWallet::new();
    let held = |l: &ResolveWallet| {
        let x = l.balances_of(a);
        let y = l.balances_of(b);
        x.available.w0 + x.staked.w0 + y.available.w0 + y.staked.w0
    };
    l.deposit_credits(a, amt(100));
    l.deposit_credits(b, amt(50));
    assert_eq!(held(&l), 150);
    let g1 = new_goal(&mut l, a, 40);
    let g2 = new_goal(&mut l, b, 50);
    assert_eq!(held(&l), 150);
    assert!(l.complete_goal(a, g1));
    assert_eq!(held(&l), 150);
    assert_eq!(l.charity_pool_total(), amt(0));
    assert!(l.miss_goal(b, g2));
    assert_eq!(held(&l), 100);
    assert_eq!(l.charity_pool_total(), amt(50));
    assert!(l.withdraw_credits(a, amt(30)));
    assert_eq!(held(&l), 70);
    assert_eq!(l.charity_pool_total(), amt(50));
    assert!(!l.withdraw_credits(b, amt(1)));
    assert_eq!(held(&l), 70);
}

#[test]
fn accounts_of_other_users_are_untouched() {
    let a = user(1);
    let b = user(2);
    let c = UserId { hi: 8, lo: 1 };
    let mut l = ResolveWallet::new();
    l.deposit_credits(a, amt(10));
    l.deposit_credits(b, amt(20));
    l.deposit_credits(c, amt(30));
    let id = new_goal(&mut l, b, 5);
    assert!(l.miss_goal(b, id));
    assert_eq!(balances(&l, a), (amt(10), amt(0), amt(0), amt(0)));
    assert_eq!(balances(&l, b), (amt(15), amt(0), amt(0), amt(5)));
    assert_eq!(balances(&l, c), (amt(30), amt(0), amt(0), amt(0)));
}

#[test]
fn fits_tells_when_a_call_is_in_range() {
    let a = user(1);
    let max = Amount { w0: u64::MAX, w1: u64::MAX, w2: u64::MAX, w3: u64::MAX };
    let mut l = ResolveWallet::new();
    assert!(l.deposit_fits(a, max));
    l.deposit_credits(a, max);
    assert!(l.deposit_fits(a, amt(0)));
    assert!(!l.deposit_fits(a, amt(1)));
    assert!(l.create_goal_fits(a, max));
    let id = l.create_goal(a, String::new(), String::new(), String::new(), max, String::new());
    assert_eq!(id, amt(1));
    assert_eq!(balances(&l, a), (amt(0), max, amt(0), amt(0)));
    l.deposit_credits(a, amt(1));
    assert!(!l.create_goal_fits(a, amt(1)));
    assert!(l.create_goal_fits(a, amt(2)));
    assert!(!l.complete_goal_fits(a, id));
    assert!(l.complete_goal_fits(user(2), id));
    assert!(l.complete_goal_fits(a, amt(2)));
    assert!(l.miss_goal_fits(a, id));
    assert!(l.miss_goal(a, id));
    assert_eq!(l.charity_pool_total(), max);
    assert_eq!(balances(&l, a), (amt(1), amt(0), amt(0), max));
    assert_eq!(new_goal(&mut l, a, 1), amt(2));
    assert!(!l.miss_goal_fits(a, amt(2)));
    assert!(l.complete_goal_fits(a, amt(2)));
}
