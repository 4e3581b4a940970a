use ledger_contracts::{AuthGate, ContractError, Holding, Identity, TokenContract};

fn party(tag: u8) -> Identity {
    Identity::new(vec![tag; 32])
}

fn gate_for(parties: &[&Identity]) -> AuthGate {
    let mut gate = AuthGate::new();
    for p in parties {
        gate.grant((*p).clone());
    }
    gate
}

fn ledger_with_admin(admin: &Identity) -> TokenContract {
    let mut ledger = TokenContract::new();
    ledger.initialize(&gate_for(&[admin]), admin.clone()).unwrap();
    ledger
}

fn sum_of_balances(ledger: &TokenContract, holders: &[&Identity]) -> i128 {
    let mut sum = 0;
    for h in holders {
        sum += ledger.balance((*h).clone());
    }
    sum
}

#[test]
fn test_token() {
    let mut ledger = TokenContract::new();

    let admin = party(1);
    let user1 = party(2);
    let user2 = party(3);

    let gate = gate_for(&[&admin]);

    ledger.initialize(&gate, admin.clone()).unwrap();
    ledger.mint(&gate, user1.clone(), 1000).unwrap();
    ledger.transfer(&gate_for(&[&user1]), user1.clone(), user2.clone(), 400).unwrap();

    let balance1 = ledger.balance(user1.clone());
    let balance2 = ledger.balance(user2.clone());

    assert_eq!(balance1, 600);
    assert_eq!(balance2, 400);
}

#[test]
fn overdrawn_transfer_after_the_first_is_refused() {
    let admin = party(1);
    let user1 = party(2);
    let user2 = party(3);
    let mut ledger = ledger_with_admin(&admin);
    ledger.mint(&gate_for(&[&admin]), user1.clone(), 1000).unwrap();
    let gate = gate_for(&[&user1]);
    ledger.transfer(&gate, user1.clone(), user2.clone(), 400).unwrap();
    assert_eq!(
        ledger.transfer(&gate, user1.clone(), user2.clone(), 1000),
        Err(ContractError::InsufficientBalanceError)
    );
    assert_eq!(ledger.balance(user1.clone()), 600);
    assert_eq!(ledger.balance(user2.clone()), 400);
}

#[test]
fn balance_of_an_unknown_identity_is_zero() {
    let ledger = TokenContract::new();
    assert_eq!(ledger.balance(party(9)), 0);
    let ledger = ledger_with_admin(&party(1));
    assert_eq!(ledger.balance(party(1)), 0);
}

#[test]
fn initialize_by_an_unproven_admin_is_refused() {
    let admin = party(1);
    let mut ledger = TokenContract::new();
    assert_eq!(
        ledger.initialize(&gate_for(&[&party(2)]), admin.clone()),
        Err(ContractError::AuthorizationError)
    );
    assert_eq!(ledger.admin(), None);
    assert_eq!(
        ledger.mint(&gate_for(&[&admin]), party(2), 5),
        Err(ContractError::NotFoundError)
    );
}

#[test]
fn initialize_again_replaces_the_admin() {
    let first = party(1);
    let second = party(2);
    let user = party(3);
    let mut ledger = ledger_with_admin(&first);
    assert_eq!(ledger.admin(), Some(&first));
    ledger.mint(&gate_for(&[&first]), user.clone(), 10).unwrap();
    ledger.initialize(&gate_for(&[&second]), second.clone()).unwrap();
    assert_eq!(ledger.admin(), Some(&second));
    assert_eq!(ledger.balance(user.clone()), 10);
    assert_eq!(
        ledger.mint(&gate_for(&[&first]), user.clone(), 10),
        Err(ContractError::AuthorizationError)
    );
    ledger.mint(&gate_for(&[&second]), user.clone(), 10).unwrap();
    assert_eq!(ledger.balance(user), 20);
}

#[test]
fn mint_before_initialize_is_not_found() {
    let mut ledger = TokenContract::new();
    assert_eq!(
        ledger.mint(&gate_for(&[&party(1)]), party(2), 1000),
        Err(ContractError::NotFoundError)
    );
    assert_eq!(ledger.mint(&AuthGate::new(), party(2), 1000), Err(ContractError::NotFoundError));
    assert_eq!(ledger.balance(party(2)), 0);
}

#[test]
fn mint_without_the_admin_is_refused() {
    let admin = party(1);
    let user = party(2);
    let mut ledger = ledger_with_admin(&admin);
    assert_eq!(
        ledger.mint(&gate_for(&[&user]), user.clone(), 1000),
        Err(ContractError::AuthorizationError)
    );
    assert_eq!(
        ledger.mint(&AuthGate::new(), user.clone(), 1000),
        Err(ContractError::AuthorizationError)
    );
    assert_eq!(ledger.balance(user), 0);
}

#[test]
fn mint_adds_to_what_is_held() {
    let admin = party(1);
    let user = party(2);
    let gate = gate_for(&[&admin]);
    let mut ledger = ledger_with_admin(&admin);
    ledger.mint(&gate, user.clone(), 1000).unwrap();
    ledger.mint(&gate, user.clone(), 234).unwrap();
    ledger.mint(&gate, admin.clone(), 1).unwrap();
    assert_eq!(ledger.balance(user.clone()), 1234);
    assert_eq!(ledger.balance(admin.clone()), 1);
}

#[test]
fn mint_of_a_negative_amount_takes_away() {
    let admin = party(1);
    let user = party(2);
    let gate = gate_for(&[&admin]);
    let mut ledger = ledger_with_admin(&admin);
    ledger.mint(&gate, user.clone(), 10).unwrap();
    ledger.mint(&gate, user.clone(), -25).unwrap();
    assert_eq!(ledger.balance(user), -15);
}

#[test]
fn mint_past_the_integer_range_is_an_arithmetic_error() {
    let admin = party(1);
    let user = party(2);
    let gate = gate_for(&[&admin]);
    let mut ledger = ledger_with_admin(&admin);
    ledger.mint(&gate, user.clone(), i128::MAX).unwrap();
    assert_eq!(ledger.mint(&gate, user.clone(), 1), Err(ContractError::ArithmeticError));
    assert_eq!(ledger.balance(user.clone()), i128::MAX);
    ledger.mint(&gate, user.clone(), i128::MIN).unwrap();
    assert_eq!(ledger.balance(user.clone()), -1);
    assert_eq!(ledger.mint(&gate, user.clone(), i128::MIN), Err(ContractError::ArithmeticError));
    assert_eq!(ledger.balance(user), -1);
}

#[test]
fn transfer_by_an_unproven_sender_is_refused() {
    let admin = party(1);
    let user1 = party(2);
    let user2 = party(3);
    let mut ledger = ledger_with_admin(&admin);
    ledger.mint(&gate_for(&[&admin]), user1.clone(), 1000).unwrap();
    assert_eq!(
        ledger.transfer(&gate_for(&[&admin, &user2]), user1.clone(), user2.clone(), 400),
        Err(ContractError::AuthorizationError)
    );
    // The missing authorization is reported before the missing funds.
    assert_eq!(
        ledger.transfer(&AuthGate::new(), user1.clone(), user2.clone(), 4000),
        Err(ContractError::AuthorizationError)
    );
    assert_eq!(ledger.balance(user1), 1000);
    assert_eq!(ledger.balance(user2), 0);
}

#[test]
fn transfer_of_more_than_is_held_changes_nothing() {
    let admin = party(1);
    let user1 = party(2);
    let user2 = party(3);
    let mut ledger = ledger_with_admin(&admin);
    ledger.mint(&gate_for(&[&admin]), user1.clone(), 5).unwrap();
    ledger.mint(&gate_for(&[&admin]), user2.clone(), 7).unwrap();
    let gate = gate_for(&[&user1]);
    assert_eq!(
        ledger.transfer(&gate, user1.clone(), user2.clone(), 6),
        Err(ContractError::InsufficientBalanceError)
    );
    assert_eq!(ledger.balance(user1.clone()), 5);
    assert_eq!(ledger.balance(user2.clone()), 7);
    // An identity that holds nothing cannot send anything.
    let gate = gate_for(&[&admin]);
    assert_eq!(
        ledger.transfer(&gate, admin.clone(), user2.clone(), 1),
        Err(ContractError::InsufficientBalanceError)
    );
    assert_eq!(ledger.balance(admin), 0);
    assert_eq!(ledger.balance(user2), 7);
}

#[test]
fn transfer_of_everything_empties_the_sender() {
    let admin = party(1);
    let user1 = party(2);
    let user2 = party(3);
    let mut ledger = ledger_with_admin(&admin);
    ledger.mint(&gate_for(&[&admin]), user1.clone(), 5).unwrap();
    ledger.transfer(&gate_for(&[&user1]), user1.clone(), user2.clone(), 5).unwrap();
    assert_eq!(ledger.balance(user1), 0);
    assert_eq!(ledger.balance(user2), 5);
}

#[test]
fn transfer_to_oneself_changes_nothing() {
    let admin = party(1);
    let user = party(2);
    let mut ledger = ledger_with_admin(&admin);
    ledger.mint(&gate_for(&[&admin]), user.clone(), 1000).unwrap();
    let gate = gate_for(&[&user]);
    assert_eq!(ledger.transfer(&gate, user.clone(), user.clone(), 400), Ok(()));
    assert_eq!(ledger.balance(user.clone()), 1000);
    assert_eq!(ledger.transfer(&gate, user.clone(), user.clone(), 1000), Ok(()));
    assert_eq!(ledger.balance(user.clone()), 1000);
    assert_eq!(
        ledger.transfer(&gate, user.clone(), user.clone(), 1001),
        Err(ContractError::InsufficientBalanceError)
    );
    assert_eq!(ledger.balance(user), 1000);
}

#[test]
fn transfer_to_oneself_near_the_integer_range_is_accepted() {
    let admin = party(1);
    let user = party(2);
    let mut ledger = ledger_with_admin(&admin);
    ledger.mint(&gate_for(&[&admin]), user.clone(), i128::MAX).unwrap();
    let gate = gate_for(&[&user]);
    assert_eq!(ledger.transfer(&gate, user.clone(), user.clone(), i128::MAX), Ok(()));
    assert_eq!(ledger.balance(user), i128::MAX);
}

#[test]
fn transfer_past_the_integer_range_is_an_arithmetic_error() {
    let admin = party(1);
    let user1 = party(2);
    let user2 = party(3);
    let mut ledger = ledger_with_admin(&admin);
    let mint = gate_for(&[&admin]);
    ledger.mint(&mint, user1.clone(), 10).unwrap();
    ledger.mint(&mint, user2.clone(), i128::MAX - 5).unwrap();
    let gate = gate_for(&[&user1]);
    assert_eq!(
        ledger.transfer(&gate, user1.clone(), user2.clone(), 6),
        Err(ContractError::ArithmeticError)
    );
    assert_eq!(ledger.balance(user1.clone()), 10);
    assert_eq!(ledger.balance(user2.clone()), i128::MAX - 5);
    ledger.transfer(&gate, user1.clone(), user2.clone(), 5).unwrap();
    assert_eq!(ledger.balance(user1), 5);
    assert_eq!(ledger.balance(user2), i128::MAX);
}

#[test]
fn transfer_of_a_negative_amount_moves_the_other_way() {
    let admin = party(1);
    let user1 = party(2);
    let user2 = party(3);
    let mut ledger = ledger_with_admin(&admin);
    let mint = gate_for(&[&admin]);
    ledger.mint(&mint, user1.clone(), 10).unwrap();
    ledger.mint(&mint, user2.clone(), 10).unwrap();
    let gate = gate_for(&[&user1]);
    ledger.transfer(&gate, user1.clone(), user2.clone(), -3).unwrap();
    assert_eq!(ledger.balance(user1.clone()), 13);
    assert_eq!(ledger.balance(user2.clone()), 7);
    // The sender's own balance can overflow too.
    ledger.mint(&mint, user1.clone(), i128::MAX - 13).unwrap();
    assert_eq!(
        ledger.transfer(&gate, user1.clone(), user2.clone(), -1),
        Err(ContractError::ArithmeticError)
    );
    assert_eq!(ledger.balance(user1), i128::MAX);
    assert_eq!(ledger.balance(user2), 7);
}

#[test]
fn supply_equals_what_was_minted() {
    let admin = party(1);
    let a = party(2);
    let b = party(3);
    let c = party(4);
    let everyone = [&admin, &a, &b, &c];
    let all = gate_for(&everyone);
    let mut ledger = ledger_with_admin(&admin);
    let mut minted: i128 = 0;

    ledger.mint(&all, a.clone(), 1000).unwrap();
    minted += 1000;
    ledger.mint(&all, b.clone(), 50).unwrap();
    minted += 50;
    assert_eq!(sum_of_balances(&ledger, &everyone), minted);

    ledger.transfer(&all, a.clone(), c.clone(), 300).unwrap();
    ledger.transfer(&all, c.clone(), b.clone(), 120).unwrap();
    ledger.transfer(&all, b.clone(), b.clone(), 170).unwrap();
    assert_eq!(sum_of_balances(&ledger, &everyone), minted);

    // Refused calls add nothing.
    assert!(ledger.transfer(&all, c.clone(), a.clone(), 181).is_err());
    assert!(ledger.mint(&AuthGate::new(), a.clone(), 77).is_err());
    assert!(ledger.transfer(&gate_for(&[&a]), b.clone(), a.clone(), 1).is_err());
    assert_eq!(sum_of_balances(&ledger, &everyone), minted);

    ledger.mint(&all, c.clone(), -20).unwrap();
    minted -= 20;
    assert_eq!(sum_of_balances(&ledger, &everyone), minted);
    assert_eq!(ledger.balance(a), 700);
    assert_eq!(ledger.balance(b), 170);
    assert_eq!(ledger.balance(c), 160);
    assert_eq!(ledger.balance(admin), 0);
    assert_eq!(minted, 1030);
}

#[test]
fn restore_rebuilds_admin_and_balances() {
    let admin = party(1);
    let user1 = party(2);
    let user2 = party(3);
    let holdings = vec![
        Holding { holder: user1.clone(), amount: 600 },
        Holding { holder: user2.clone(), amount: 400 },
    ];
    let mut ledger = TokenContract::restore(Some(admin.clone()), &holdings);
    assert_eq!(ledger.admin(), Some(&admin));
    assert_eq!(ledger.balance(user1.clone()), 600);
    assert_eq!(ledger.balance(user2.clone()), 400);
    assert_eq!(ledger.balance(admin.clone()), 0);
    ledger.mint(&gate_for(&[&admin]), user2.clone(), 1).unwrap();
    ledger.transfer(&gate_for(&[&user2]), user2.clone(), user1.clone(), 401).unwrap();
    assert_eq!(ledger.balance(user1), 1001);
    assert_eq!(ledger.balance(user2), 0);
}

#[test]
fn restore_lets_a_later_holding_replace_an_earlier_one() {
    let user = party(2);
    let holdings = vec![
        Holding { holder: user.clone(), amount: 600 },
        Holding { holder: party(3), amount: 1 },
        Holding { holder: user.clone(), amount: 5 },
    ];
    let mut ledger = TokenContract::restore(None, &holdings);
    assert_eq!(ledger.admin(), None);
    assert_eq!(ledger.balance(user.clone()), 5);
    assert_eq!(ledger.balance(party(3)), 1);
    assert_eq!(
        ledger.mint(&gate_for(&[&user]), user.clone(), 1),
        Err(ContractError::NotFoundError)
    );
    let empty = TokenContract::restore(None, &Vec::new());
    assert_eq!(empty.balance(user), 0);
}
