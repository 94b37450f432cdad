use erc20::{AccountId, Approval, Erc20, Error, Event, Transfer};

fn acct(tag: u8) -> AccountId {
    AccountId::from_bytes([tag; 32])
}

#[test]
fn conservation_holds_across_calls() {
    let a = acct(0x01);
    let b = acct(0x02);
    let c = acct(0x03);
    let mut ledger = Erc20::new(100, a);

    assert_eq!(ledger.transfer(a, b, 40), Ok(()));
    assert_eq!(ledger.transfer(b, c, 15), Ok(()));
    assert_eq!(ledger.approve(a, c, 30), Ok(()));
    assert_eq!(ledger.transfer_from(c, a, b, 25), Ok(()));

    let total: u128 = ledger.balance_of(a) + ledger.balance_of(b) + ledger.balance_of(c);
    assert_eq!(total, 100);
    assert_eq!(ledger.total_supply(), 100);
}

#[test]
fn default_reads_are_zero() {
    let a = acct(0x01);
    let stranger = acct(0x09);
    let other = acct(0x0a);
    let ledger = Erc20::new(100, a);

    assert_eq!(ledger.balance_of(stranger), 0);
    assert_eq!(ledger.allowance(a, stranger), 0);
    assert_eq!(ledger.allowance(stranger, other), 0);
}

#[test]
fn failed_calls_leave_state_untouched() {
    let a = acct(0x01);
    let b = acct(0x02);
    let mut ledger = Erc20::new(100, a);
    assert_eq!(ledger.approve(a, b, 5), Ok(()));

    // Balance failure on a plain transfer.
    assert_eq!(ledger.transfer(a, b, 101), Err(Error::InsufficientBalance));
    assert_eq!(ledger.balance_of(a), 100);
    assert_eq!(ledger.balance_of(b), 0);
    assert_eq!(ledger.allowance(a, b), 5);
    assert_eq!(ledger.events().len(), 2);

    // Approval failure on a delegated transfer.
    assert_eq!(ledger.transfer_from(b, a, b, 6), Err(Error::InsufficientApproval));
    assert_eq!(ledger.balance_of(a), 100);
    assert_eq!(ledger.allowance(a, b), 5);
    assert_eq!(ledger.events().len(), 2);
}

#[test]
fn approve_overwrites_previous_value() {
    let a = acct(0x01);
    let b = acct(0x02);
    let mut ledger = Erc20::new(100, a);

    assert_eq!(ledger.approve(a, b, 10), Ok(()));
    assert_eq!(ledger.approve(a, b, 7), Ok(()));
    // The second value replaces the first; they are not added.
    assert_eq!(ledger.allowance(a, b), 7);

    let expected = Event::Approval(Approval { owner: a, spender: b, value: 7 });
    assert_eq!(ledger.events()[2], expected);
}

#[test]
fn self_transfer_is_neutral() {
    let a = acct(0x01);
    let mut ledger = Erc20::new(100, a);

    assert_eq!(ledger.transfer(a, a, 30), Ok(()));
    assert_eq!(ledger.balance_of(a), 100);
    assert_eq!(ledger.events().len(), 2);
    let expected = Event::Transfer(Transfer { from: Some(a), to: Some(a), value: 30 });
    assert_eq!(ledger.events()[1], expected);
}

#[test]
fn transfer_from_decrements_allowance_exactly() {
    let a = acct(0x01);
    let b = acct(0x02);
    let e = acct(0x05);
    let mut ledger = Erc20::new(100, a);

    assert_eq!(ledger.approve(a, b, 10), Ok(()));
    assert_eq!(ledger.transfer_from(b, a, e, 4), Ok(()));
    assert_eq!(ledger.allowance(a, b), 6);
    assert_eq!(ledger.transfer_from(b, a, e, 6), Ok(()));
    assert_eq!(ledger.allowance(a, b), 0);
    assert_eq!(ledger.balance_of(e), 10);
}

#[test]
fn zero_supply_is_legal() {
    let a = acct(0x01);
    let b = acct(0x02);
    let mut ledger = Erc20::new(0, a);

    assert_eq!(ledger.total_supply(), 0);
    assert_eq!(ledger.balance_of(a), 0);
    let expected = Event::Transfer(Transfer { from: None, to: Some(a), value: 0 });
    assert_eq!(ledger.events()[0], expected);

    // A transfer of zero succeeds even from an empty account.
    assert_eq!(ledger.transfer(b, a, 0), Ok(()));
    // A transfer of anything more fails.
    assert_eq!(ledger.transfer(a, b, 1), Err(Error::InsufficientBalance));
}

#[test]
fn whole_balance_can_move() {
    let a = acct(0x01);
    let b = acct(0x02);
    let mut ledger = Erc20::new(u128::MAX, a);

    assert_eq!(ledger.transfer(a, b, u128::MAX), Ok(()));
    assert_eq!(ledger.balance_of(a), 0);
    assert_eq!(ledger.balance_of(b), u128::MAX);
    // Moving tokens back onto the full account is a plain move, not an
    // overflow: conservation bounds every balance by the supply.
    assert_eq!(ledger.transfer(b, a, 1), Ok(()));
    assert_eq!(ledger.balance_of(a), 1);
    assert_eq!(ledger.balance_of(b), u128::MAX - 1);
}

#[test]
fn accounts_compare_by_bytes() {
    let mut first: [u8; 32] = [0u8; 32];
    first[31] = 1;
    let mut second: [u8; 32] = [0u8; 32];
    second[31] = 2;
    assert_ne!(AccountId::from_bytes(first), AccountId::from_bytes(second));
    assert_eq!(AccountId::from_bytes(first), AccountId::from_bytes(first));

    // Distinct identifiers hold distinct balances.
    let a = AccountId::from_bytes(first);
    let b = AccountId::from_bytes(second);
    let mut ledger = Erc20::new(10, a);
    assert_eq!(ledger.transfer(a, b, 3), Ok(()));
    assert_eq!(ledger.balance_of(a), 7);
    assert_eq!(ledger.balance_of(b), 3);
}
