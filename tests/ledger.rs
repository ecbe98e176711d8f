use erc20::erc20::Erc20;
use erc20::types::{AccountId, Approval, Error, Event, Transfer};

fn acct(n: u128) -> AccountId {
    AccountId { hi: 0, lo: n }
}

fn token(creator: AccountId, supply: u128) -> Erc20 {
    Erc20::new(creator, b"BTK".to_vec(), b"BTK".to_vec(), supply)
}

#[test]
fn new_gives_creator_whole_supply() {
    let a = acct(1);
    let t = token(a, 1000);
    assert_eq!(t.balance_of(a), 1000);
    assert_eq!(t.total_supply(), 1000);
    assert_eq!(t.balance_of(acct(2)), 0);
    assert_eq!(t.name(), b"BTK".to_vec());
    assert_eq!(t.symbol(), b"BTK".to_vec());
}

#[test]
fn new_queues_mint_notification() {
    let a = acct(1);
    let mut t = token(a, 1000);
    let events = t.take_events();
    assert_eq!(
        events,
        vec![Event::Transfer(Transfer { from: None, to: Some(a), value: 1000 })]
    );
    assert!(t.take_events().is_empty());
}

#[test]
fn transfer_moves_balance() {
    let (a, b) = (acct(1), acct(2));
    let mut t = token(a, 1000);
    assert_eq!(t.transfer(a, b, 300), Ok(()));
    assert_eq!(t.balance_of(a), 700);
    assert_eq!(t.balance_of(b), 300);
    assert_eq!(t.total_supply(), 1000);
}

#[test]
fn transfer_insufficient_balance_changes_nothing() {
    let (a, b) = (acct(1), acct(2));
    let mut t = token(a, 1000);
    t.take_events();
    assert_eq!(t.transfer(b, a, 1), Err(Error::InsufficientBalance));
    assert_eq!(t.transfer(a, b, 1001), Err(Error::InsufficientBalance));
    assert_eq!(t.balance_of(a), 1000);
    assert_eq!(t.balance_of(b), 0);
    assert!(t.take_events().is_empty());
}

#[test]
fn transfer_to_self_keeps_balance() {
    let a = acct(1);
    let mut t = token(a, 1000);
    assert_eq!(t.transfer(a, a, 400), Ok(()));
    assert_eq!(t.balance_of(a), 1000);
}

#[test]
fn transfer_of_zero_succeeds_and_notifies() {
    let (a, b) = (acct(1), acct(2));
    let mut t = token(a, 1000);
    t.take_events();
    assert_eq!(t.transfer(b, a, 0), Ok(()));
    assert_eq!(
        t.take_events(),
        vec![Event::Transfer(Transfer { from: Some(b), to: Some(a), value: 0 })]
    );
}

#[test]
fn delegated_transfer_spends_spender_allowance() {
    let (a, b, c, d) = (acct(1), acct(2), acct(3), acct(4));
    let mut t = token(a, 1000);
    assert_eq!(t.transfer(a, b, 300), Ok(()));
    assert_eq!(t.approve(a, c, 200), Ok(()));
    assert_eq!(t.transfer_from(c, a, d, 150), Ok(()));
    assert_eq!(t.balance_of(a), 550);
    assert_eq!(t.balance_of(d), 150);
    assert_eq!(t.allowance(a, c), 50);
    assert_eq!(t.allowance(a, d), 0);
}

#[test]
fn delegated_transfer_over_allowance_fails() {
    let (a, c, d) = (acct(1), acct(3), acct(4));
    let mut t = token(a, 1000);
    assert_eq!(t.approve(a, c, 100), Ok(()));
    t.take_events();
    assert_eq!(t.transfer_from(c, a, d, 101), Err(Error::InsufficientAllowance));
    assert_eq!(t.transfer_from(d, a, c, 1), Err(Error::InsufficientAllowance));
    assert_eq!(t.allowance(a, c), 100);
    assert_eq!(t.balance_of(a), 1000);
    assert!(t.take_events().is_empty());
}

#[test]
fn delegated_transfer_over_balance_fails() {
    let (a, b, c) = (acct(1), acct(2), acct(3));
    let mut t = token(a, 1000);
    assert_eq!(t.approve(b, c, 500), Ok(()));
    assert_eq!(t.transfer_from(c, b, a, 10), Err(Error::InsufficientBalance));
    assert_eq!(t.allowance(b, c), 500);
    assert_eq!(t.balance_of(a), 1000);
}

#[test]
fn approve_overwrites_and_notifies() {
    let (a, c) = (acct(1), acct(3));
    let mut t = token(a, 10);
    t.take_events();
    assert_eq!(t.approve(a, c, 200), Ok(()));
    assert_eq!(t.approve(a, c, 70), Ok(()));
    assert_eq!(t.allowance(a, c), 70);
    assert_eq!(t.allowance(c, a), 0);
    assert_eq!(
        t.take_events(),
        vec![
            Event::Approval(Approval { owner: a, spender: c, value: 200 }),
            Event::Approval(Approval { owner: a, spender: c, value: 70 }),
        ]
    );
}

#[test]
fn issue_by_creator_mints() {
    let a = acct(1);
    let mut t = token(a, 1000);
    t.take_events();
    assert_eq!(t.issue(a, 250), Ok(()));
    assert_eq!(t.total_supply(), 1250);
    assert_eq!(t.balance_of(a), 1250);
    assert_eq!(
        t.take_events(),
        vec![Event::Transfer(Transfer { from: None, to: Some(a), value: 250 })]
    );
}

#[test]
fn issue_by_other_fails() {
    let (a, b) = (acct(1), acct(2));
    let mut t = token(a, 1000);
    assert_eq!(t.transfer(a, b, 300), Ok(()));
    assert_eq!(t.issue(b, 100), Err(Error::OnlyForCreater));
    assert_eq!(t.total_supply(), 1000);
    assert_eq!(t.balance_of(b), 300);
}

#[test]
fn issue_past_max_fails() {
    let a = acct(1);
    let mut t = token(a, u128::MAX - 5);
    assert_eq!(t.issue(a, 6), Err(Error::Overflow));
    assert_eq!(t.total_supply(), u128::MAX - 5);
    assert_eq!(t.issue(a, 5), Ok(()));
    assert_eq!(t.total_supply(), u128::MAX);
    assert_eq!(t.balance_of(a), u128::MAX);
}

#[test]
fn burn_insufficient_fails() {
    let (a, b, c, d) = (acct(1), acct(2), acct(3), acct(4));
    let mut t = token(a, 1000);
    assert_eq!(t.transfer(a, b, 300), Ok(()));
    assert_eq!(t.approve(a, c, 200), Ok(()));
    assert_eq!(t.transfer_from(c, a, d, 150), Ok(()));
    assert_eq!(t.balance_of(a), 550);
    assert_eq!(t.burn(a, 2000), Err(Error::InsufficientBalance));
    assert_eq!(t.total_supply(), 1000);
    assert_eq!(t.balance_of(a), 550);
}

#[test]
fn burn_reduces_balance_and_supply() {
    let (a, b) = (acct(1), acct(2));
    let mut t = token(a, 1000);
    assert_eq!(t.transfer(a, b, 300), Ok(()));
    t.take_events();
    assert_eq!(t.burn(b, 300), Ok(()));
    assert_eq!(t.balance_of(b), 0);
    assert_eq!(t.total_supply(), 700);
    assert_eq!(
        t.take_events(),
        vec![Event::Transfer(Transfer { from: Some(b), to: None, value: 300 })]
    );
}

#[test]
fn transfers_conserve_sum_of_balances() {
    let accts = [acct(1), acct(2), acct(3), acct(4)];
    let mut t = token(accts[0], 1000);
    assert_eq!(t.transfer(accts[0], accts[1], 400), Ok(()));
    assert_eq!(t.transfer(accts[1], accts[2], 150), Ok(()));
    assert_eq!(t.approve(accts[2], accts[3], 100), Ok(()));
    assert_eq!(t.transfer_from(accts[3], accts[2], accts[0], 80), Ok(()));
    assert_eq!(t.transfer(accts[2], accts[3], 500), Err(Error::InsufficientBalance));
    let sum: u128 = accts.iter().map(|x| t.balance_of(*x)).sum();
    assert_eq!(sum, 1000);
    assert_eq!(t.total_supply(), 1000);
}

#[test]
fn reads_repeat_unchanged() {
    let (a, c) = (acct(1), acct(3));
    let mut t = token(a, 1000);
    assert_eq!(t.approve(a, c, 5), Ok(()));
    for _ in 0..3 {
        assert_eq!(t.balance_of(a), 1000);
        assert_eq!(t.allowance(a, c), 5);
        assert_eq!(t.total_supply(), 1000);
        assert_eq!(t.name(), b"BTK".to_vec());
        assert_eq!(t.symbol(), b"BTK".to_vec());
    }
}

#[test]
fn accounts_differing_in_one_half_are_distinct() {
    let a = AccountId { hi: 7, lo: 1 };
    let b = AccountId { hi: 8, lo: 1 };
    let c = AccountId { hi: 7, lo: 2 };
    let mut t = token(a, 90);
    assert_eq!(t.transfer(a, b, 40), Ok(()));
    assert_eq!(t.transfer(a, c, 20), Ok(()));
    assert_eq!(t.approve(b, c, 9), Ok(()));
    assert_eq!(t.balance_of(a), 30);
    assert_eq!(t.balance_of(b), 40);
    assert_eq!(t.balance_of(c), 20);
    assert_eq!(t.allowance(b, c), 9);
    assert_eq!(t.allowance(c, b), 0);
    assert_eq!(t.allowance(a, c), 0);
}
