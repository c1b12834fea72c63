use psp22::{AccountId, Approval, PSP22Data, PSP22Error, PSP22Event, Transfer};

fn alice() -> AccountId {
    AccountId::from([1u8; 32])
}

fn bob() -> AccountId {
    AccountId::from([2u8; 32])
}

fn charlie() -> AccountId {
    AccountId::from([3u8; 32])
}

fn transfer(from: Option<AccountId>, to: Option<AccountId>, value: u128) -> PSP22Event {
    PSP22Event::Transfer(Transfer { from, to, value })
}

fn approval(owner: AccountId, spender: AccountId, amount: u128) -> PSP22Event {
    PSP22Event::Approval(Approval { owner, spender, amount })
}

fn token(supply: u128) -> PSP22Data {
    PSP22Data::new(supply, alice()).0
}

#[test]
fn constructor_works() {
    let supply = 1000;
    let t = token(supply);
    assert_eq!(t.total_supply(), supply);
    assert_eq!(t.balance_of(alice()), supply);
    assert_eq!(t.balance_of(bob()), 0);
    assert_eq!(t.allowance(alice(), alice()), 0);
    assert_eq!(t.allowance(alice(), bob()), 0);
    assert_eq!(t.allowance(bob(), alice()), 0);
}

#[test]
fn constructor_emits_event() {
    let (_, events) = PSP22Data::new(1000, alice());
    assert_eq!(events, vec![transfer(None, Some(alice()), 1000)]);
}

#[test]
fn constructor_with_0_supply_emits_no_events() {
    let (t, events) = PSP22Data::new(0, alice());
    assert!(events.is_empty());
    assert_eq!(t.total_supply(), 0);
    assert_eq!(t.balance_of(alice()), 0);
}

#[test]
fn transfer_works() {
    let (supply, value) = (1000, 100);
    let mut t = token(supply);
    assert!(t.transfer(alice(), bob(), value).is_ok());
    assert_eq!(t.total_supply(), supply);
    assert_eq!(t.balance_of(alice()), supply - value);
    assert_eq!(t.balance_of(bob()), value);
}

#[test]
fn double_transfer_works() {
    let (supply, value) = (1000, 100);
    let mut t = token(supply);
    assert!(t.transfer(alice(), bob(), value).is_ok());
    assert!(t.transfer(alice(), bob(), 2 * value).is_ok());
    assert_eq!(t.total_supply(), supply);
    assert_eq!(t.balance_of(alice()), supply - 3 * value);
    assert_eq!(t.balance_of(bob()), 3 * value);
}

#[test]
fn transfer_back_and_forth_works() {
    let (supply, value) = (1000, 100);
    let mut t = token(supply);
    assert!(t.transfer(alice(), bob(), value).is_ok());
    assert!(t.transfer(bob(), alice(), value).is_ok());
    assert_eq!(t.total_supply(), supply);
    assert_eq!(t.balance_of(alice()), supply);
    assert_eq!(t.balance_of(bob()), 0);
}

#[test]
fn transfer_cycle_works() {
    let supply = 2137;
    let mut t = token(supply);
    assert!(t.transfer(alice(), bob(), supply).is_ok());
    assert!(t.transfer(bob(), charlie(), supply).is_ok());
    assert!(t.transfer(charlie(), alice(), supply).is_ok());
    assert_eq!(t.total_supply(), supply);
    assert_eq!(t.balance_of(alice()), supply);
    assert_eq!(t.balance_of(bob()), 0);
    assert_eq!(t.balance_of(charlie()), 0);
}

#[test]
fn transfer_emits_event() {
    let mut t = token(1000);
    assert_eq!(
        t.transfer(alice(), bob(), 100),
        Ok(vec![transfer(Some(alice()), Some(bob()), 100)])
    );
}

#[test]
fn multiple_transfers_emit_correct_events() {
    let value = 100;
    let mut t = token(1000);
    let mut events = Vec::new();
    events.extend(t.transfer(alice(), bob(), value).unwrap());
    events.extend(t.transfer(alice(), bob(), 2 * value).unwrap());
    events.extend(t.transfer(bob(), charlie(), 3 * value).unwrap());
    assert_eq!(
        events,
        vec![
            transfer(Some(alice()), Some(bob()), value),
            transfer(Some(alice()), Some(bob()), 2 * value),
            transfer(Some(bob()), Some(charlie()), 3 * value),
        ]
    );
}

#[test]
fn transfer_0_works() {
    let mut t = token(1000);
    assert_eq!(t.transfer(alice(), bob(), 0), Ok(vec![]));
    assert_eq!(t.balance_of(alice()), 1000);
}

#[test]
fn transfer_from_empty_account_fails() {
    let mut t = token(1000);
    assert_eq!(
        t.transfer(bob(), charlie(), 100),
        Err(PSP22Error::InsufficientBalance)
    );
}

#[test]
fn insufficient_balance_transfer_fails() {
    let value = 100;
    let mut t = token(1000);
    assert!(t.transfer(alice(), bob(), value).is_ok());
    assert_eq!(
        t.transfer(bob(), charlie(), value + 1),
        Err(PSP22Error::InsufficientBalance)
    );
    assert_eq!(t.balance_of(bob()), value);
    assert_eq!(t.balance_of(charlie()), 0);
}

#[test]
fn approve_works() {
    let (supply, value) = (1000, 100);
    let mut t = token(supply);
    assert!(t.approve(alice(), bob(), value).is_ok());
    assert_eq!(t.allowance(alice(), bob()), value);
    assert_eq!(t.allowance(bob(), alice()), 0);
    assert_eq!(t.total_supply(), supply);
    assert_eq!(t.balance_of(alice()), supply);
    assert_eq!(t.balance_of(bob()), 0);
}

#[test]
fn approve_a_lot_works() {
    let (supply, value) = (1000, 100000);
    let mut t = token(supply);
    assert_eq!(
        t.approve(alice(), bob(), value),
        Ok(vec![approval(alice(), bob(), value)])
    );
    assert_eq!(t.allowance(alice(), bob()), value);
    assert_eq!(t.allowance(bob(), alice()), 0);
    assert_eq!(t.balance_of(alice()), supply);
}

#[test]
fn multiple_approves_work_and_emit_correct_events() {
    let value = 100;
    let mut t = token(1000);
    let mut events = Vec::new();
    events.extend(t.approve(alice(), bob(), value).unwrap());
    events.extend(t.approve(alice(), charlie(), 2 * value).unwrap());
    events.extend(t.approve(bob(), alice(), 3 * value).unwrap());
    assert_eq!(t.allowance(alice(), bob()), value);
    assert_eq!(t.allowance(alice(), charlie()), 2 * value);
    assert_eq!(t.allowance(bob(), alice()), 3 * value);
    events.extend(t.approve(alice(), bob(), 4 * value).unwrap());
    assert_eq!(t.allowance(alice(), bob()), 4 * value);
    assert_eq!(
        events,
        vec![
            approval(alice(), bob(), value),
            approval(alice(), charlie(), 2 * value),
            approval(bob(), alice(), 3 * value),
            approval(alice(), bob(), 4 * value),
        ]
    );
}

#[test]
fn approve_to_self_is_no_op() {
    let mut t = token(1000);
    assert_eq!(t.approve(alice(), alice(), 100), Ok(vec![]));
    assert_eq!(t.allowance(alice(), alice()), 0);
}

#[test]
fn increase_allowance_works_and_emits_event() {
    let (supply, value) = (1000, 100);
    let mut t = token(supply);
    assert!(t.approve(alice(), bob(), value).is_ok());
    assert_eq!(
        t.increase_allowance(alice(), bob(), supply),
        Ok(vec![approval(alice(), bob(), value + supply)])
    );
    assert_eq!(t.allowance(alice(), bob()), value + supply);
}

#[test]
fn increase_allowance_saturates() {
    let mut t = token(1000);
    assert!(t.approve(alice(), bob(), u128::MAX - 5).is_ok());
    assert_eq!(
        t.increase_allowance(alice(), bob(), 10),
        Ok(vec![approval(alice(), bob(), u128::MAX)])
    );
    assert_eq!(t.allowance(alice(), bob()), u128::MAX);
}

#[test]
fn decrease_allowance_works_and_emits_event() {
    let value = 100;
    let mut t = token(1000);
    assert!(t.approve(alice(), bob(), 2 * value).is_ok());
    assert_eq!(
        t.decrease_allowance(alice(), bob(), value),
        Ok(vec![approval(alice(), bob(), value)])
    );
    assert_eq!(t.allowance(alice(), bob()), value);
    assert_eq!(
        t.decrease_allowance(alice(), bob(), value),
        Ok(vec![approval(alice(), bob(), 0)])
    );
    assert_eq!(t.allowance(alice(), bob()), 0);
}

#[test]
fn decrease_allowance_too_much_fails() {
    let value = 100;
    let mut t = token(1000);
    assert!(t.approve(alice(), bob(), value).is_ok());
    assert_eq!(
        t.decrease_allowance(alice(), bob(), 2 * value),
        Err(PSP22Error::InsufficientAllowance)
    );
    assert_eq!(t.allowance(alice(), bob()), value);
}

#[test]
fn increase_and_decrease_allowance_by_0_works() {
    let value = 100;
    let mut t = token(1000);
    assert!(t.approve(alice(), bob(), value).is_ok());
    assert_eq!(t.increase_allowance(alice(), bob(), 0), Ok(vec![]));
    assert_eq!(t.decrease_allowance(alice(), bob(), 0), Ok(vec![]));
    assert_eq!(t.allowance(alice(), bob()), value);
}

#[test]
fn increase_allowance_to_self_is_no_op() {
    let mut t = token(1000);
    assert_eq!(t.increase_allowance(alice(), alice(), 100), Ok(vec![]));
    assert_eq!(t.allowance(alice(), alice()), 0);
}

#[test]
fn decrease_allowance_to_self_is_no_op() {
    let mut t = token(1000);
    assert_eq!(t.decrease_allowance(alice(), alice(), 100), Ok(vec![]));
    assert_eq!(t.allowance(alice(), alice()), 0);
}

#[test]
fn transfer_from_works() {
    let (supply, value) = (1000, 100);
    let mut t = token(supply);
    assert!(t.approve(alice(), bob(), value).is_ok());
    assert!(t.transfer_from(bob(), alice(), charlie(), value).is_ok());
    assert_eq!(t.total_supply(), supply);
    assert_eq!(t.balance_of(alice()), supply - value);
    assert_eq!(t.balance_of(bob()), 0);
    assert_eq!(t.balance_of(charlie()), value);
}

#[test]
fn transfer_from_decreases_allowance() {
    let value = 100;
    let mut t = token(1000);
    assert!(t.approve(alice(), bob(), 3 * value).is_ok());
    assert!(t.transfer_from(bob(), alice(), charlie(), value).is_ok());
    assert_eq!(t.allowance(alice(), bob()), 2 * value);
    assert_eq!(t.allowance(alice(), charlie()), 0);
    assert_eq!(t.allowance(bob(), alice()), 0);
    assert_eq!(t.allowance(bob(), charlie()), 0);
}

#[test]
fn transfer_from_emits_events() {
    let value = 100;
    let mut t = token(1000);
    assert!(t.approve(alice(), bob(), 2 * value).is_ok());
    assert_eq!(
        t.transfer_from(bob(), alice(), charlie(), value),
        Ok(vec![
            approval(alice(), bob(), value),
            transfer(Some(alice()), Some(charlie()), value),
        ])
    );
}

#[test]
fn transfer_from_fails_with_insufficient_allowance() {
    let value = 100;
    let mut t = token(1000);
    assert!(t.approve(alice(), bob(), value).is_ok());
    assert_eq!(
        t.transfer_from(bob(), alice(), charlie(), 2 * value),
        Err(PSP22Error::InsufficientAllowance)
    );
    assert_eq!(t.allowance(alice(), bob()), value);
    assert_eq!(t.balance_of(alice()), 1000);
}

#[test]
fn transfer_from_fails_with_insufficient_balance() {
    let value = 100;
    let mut t = token(1000);
    assert!(t.transfer(alice(), bob(), value).is_ok());
    assert!(t.approve(bob(), charlie(), 2 * value).is_ok());
    assert_eq!(
        t.transfer_from(charlie(), bob(), alice(), 2 * value),
        Err(PSP22Error::InsufficientBalance)
    );
    assert_eq!(t.balance_of(bob()), value);
    assert_eq!(t.allowance(bob(), charlie()), 2 * value);
}

#[test]
fn transfer_from_with_not_enough_balance_and_allowance_fails_with_insufficient_allowance() {
    let value = 100;
    let mut t = token(1000);
    assert!(t.transfer(alice(), bob(), value).is_ok());
    assert!(t.approve(bob(), charlie(), value).is_ok());
    assert_eq!(
        t.transfer_from(charlie(), bob(), alice(), 2 * value),
        Err(PSP22Error::InsufficientAllowance)
    );
    assert_eq!(t.balance_of(bob()), value);
    assert_eq!(t.allowance(bob(), charlie()), value);
}

#[test]
fn transfer_from_myself_works_without_allowance() {
    let (supply, value) = (1000, 100);
    let mut t = token(supply);
    assert_eq!(
        t.transfer_from(alice(), alice(), bob(), value),
        Ok(vec![transfer(Some(alice()), Some(bob()), value)])
    );
    assert_eq!(t.balance_of(alice()), supply - value);
    assert_eq!(t.balance_of(bob()), value);
}

#[test]
fn transfer_from_for_0_is_no_op() {
    let mut t = token(1000);
    assert_eq!(t.transfer_from(bob(), alice(), charlie(), 0), Ok(vec![]));
    assert_eq!(t.balance_of(alice()), 1000);
}

#[test]
fn transfer_from_to_the_same_address_is_no_op() {
    let mut t = token(1000);
    assert_eq!(t.transfer_from(bob(), alice(), alice(), 100), Ok(vec![]));
    assert_eq!(t.balance_of(alice()), 1000);
}

#[test]
fn mint_works_and_emits_event() {
    let mut t = token(1000);
    assert_eq!(
        t.mint(bob(), 500),
        Ok(vec![transfer(None, Some(bob()), 500)])
    );
    assert_eq!(t.total_supply(), 1500);
    assert_eq!(t.balance_of(bob()), 500);
    assert_eq!(t.balance_of(alice()), 1000);
}

#[test]
fn mint_0_is_no_op() {
    let mut t = token(1000);
    assert_eq!(t.mint(bob(), 0), Ok(vec![]));
    assert_eq!(t.total_supply(), 1000);
}

#[test]
fn mint_up_to_the_largest_supply_works() {
    let mut t = token(1000);
    assert!(t.mint(bob(), u128::MAX - 1000).is_ok());
    assert_eq!(t.total_supply(), u128::MAX);
    assert_eq!(t.balance_of(bob()), u128::MAX - 1000);
}

#[test]
fn burn_works_and_emits_event() {
    let mut t = token(1000);
    assert_eq!(
        t.burn(alice(), 300),
        Ok(vec![transfer(Some(alice()), None, 300)])
    );
    assert_eq!(t.total_supply(), 700);
    assert_eq!(t.balance_of(alice()), 700);
}

#[test]
fn burn_everything_works() {
    let mut t = token(1000);
    assert!(t.burn(alice(), 1000).is_ok());
    assert_eq!(t.total_supply(), 0);
    assert_eq!(t.balance_of(alice()), 0);
}

#[test]
fn burn_0_is_no_op() {
    let mut t = token(1000);
    assert_eq!(t.burn(bob(), 0), Ok(vec![]));
    assert_eq!(t.total_supply(), 1000);
}

#[test]
fn burn_too_much_fails() {
    let mut t = token(1000);
    assert_eq!(t.burn(alice(), 1001), Err(PSP22Error::InsufficientBalance));
    assert_eq!(t.total_supply(), 1000);
    assert_eq!(t.balance_of(alice()), 1000);
}

#[test]
fn burn_from_works_without_approval_event() {
    let mut t = token(1000);
    assert!(t.approve(alice(), bob(), 300).is_ok());
    assert_eq!(
        t.burn_from(bob(), alice(), 200),
        Ok(vec![transfer(Some(alice()), None, 200)])
    );
    assert_eq!(t.total_supply(), 800);
    assert_eq!(t.balance_of(alice()), 800);
    assert_eq!(t.allowance(alice(), bob()), 100);
}

#[test]
fn burn_from_fails_with_insufficient_allowance() {
    let mut t = token(1000);
    assert!(t.approve(alice(), bob(), 100).is_ok());
    assert_eq!(
        t.burn_from(bob(), alice(), 200),
        Err(PSP22Error::InsufficientAllowance)
    );
    assert_eq!(t.total_supply(), 1000);
    assert_eq!(t.allowance(alice(), bob()), 100);
}

#[test]
fn burn_from_fails_with_insufficient_balance() {
    let mut t = token(1000);
    assert!(t.approve(alice(), bob(), 5000).is_ok());
    assert_eq!(
        t.burn_from(bob(), alice(), 2000),
        Err(PSP22Error::InsufficientBalance)
    );
    assert_eq!(t.total_supply(), 1000);
    assert_eq!(t.allowance(alice(), bob()), 5000);
}

#[test]
fn burn_from_own_account_needs_allowance() {
    let mut t = token(1000);
    assert_eq!(
        t.burn_from(alice(), alice(), 10),
        Err(PSP22Error::InsufficientAllowance)
    );
}

#[test]
fn account_ids_compare_by_bytes() {
    let mut bytes = [1u8; 32];
    assert_eq!(AccountId::from(bytes), alice());
    bytes[31] = 9;
    assert_ne!(AccountId::from(bytes), alice());
    assert!(AccountId::from(bytes).same(&AccountId::from(bytes)));
    assert!(!alice().same(&bob()));
}
