use wishlist_escrow::errors::ErrorCode;
use wishlist_escrow::registry::Registry;

fn ident(bytes: &[u8]) -> Vec<u8> {
    bytes.to_vec()
}

#[test]
fn goal_collects_and_pays_out_entire_escrow() {
    let creator = [1u8; 32];
    let id = ident(b"bicycle");
    let mut reg = Registry::new();
    assert_eq!(reg.create_goal(&creator, id.clone(), 1000), Ok(()));
    assert_eq!(reg.collected_amount_of(&creator, &id), 0);
    assert_eq!(reg.escrow_balance_of(&creator, &id), 0);

    assert_eq!(reg.contribute(&creator, &id, 10_000, 400), Ok(9600));
    assert_eq!(reg.collected_amount_of(&creator, &id), 400);
    assert_eq!(reg.escrow_balance_of(&creator, &id), 400);

    assert_eq!(reg.contribute(&creator, &id, 5_000, 700), Ok(4300));
    assert_eq!(reg.collected_amount_of(&creator, &id), 1100);
    assert_eq!(reg.escrow_balance_of(&creator, &id), 1100);

    assert_eq!(reg.withdraw(&creator, &creator, &id), Ok(1100));
    assert_eq!(reg.escrow_balance_of(&creator, &id), 0);
    assert_eq!(reg.paid_out_of(&creator, &id), 1100);
}

#[test]
fn withdrawal_below_target_fails_and_changes_nothing() {
    let creator = [2u8; 32];
    let id = ident(b"guitar");
    let mut reg = Registry::new();
    assert_eq!(reg.create_goal(&creator, id.clone(), 500), Ok(()));
    assert_eq!(reg.contribute(&creator, &id, 1000, 100), Ok(900));
    assert_eq!(
        reg.withdraw(&creator, &creator, &id),
        Err(ErrorCode::TargetNotReached)
    );
    assert_eq!(reg.collected_amount_of(&creator, &id), 100);
    assert_eq!(reg.escrow_balance_of(&creator, &id), 100);
    assert_eq!(reg.paid_out_of(&creator, &id), 0);
}

#[test]
fn duplicate_goal_fails_and_leaves_prior_record_untouched() {
    let creator = [3u8; 32];
    let id = ident(b"camera");
    let mut reg = Registry::new();
    assert_eq!(reg.create_goal(&creator, id.clone(), 800), Ok(()));
    assert_eq!(reg.contribute(&creator, &id, 100, 50), Ok(50));
    assert_eq!(
        reg.create_goal(&creator, id.clone(), 9999),
        Err(ErrorCode::DuplicateGoal)
    );
    assert_eq!(reg.goal_count(), 1);
    assert_eq!(reg.target_amount_of(&creator, &id), 800);
    assert_eq!(reg.collected_amount_of(&creator, &id), 50);
}

#[test]
fn same_identifier_under_another_creator_is_a_new_goal() {
    let creator_a = [4u8; 32];
    let creator_b = [5u8; 32];
    let id = ident(b"books");
    let mut reg = Registry::new();
    assert_eq!(reg.create_goal(&creator_a, id.clone(), 10), Ok(()));
    assert_eq!(reg.create_goal(&creator_b, id.clone(), 20), Ok(()));
    assert_eq!(reg.goal_count(), 2);
    assert_eq!(reg.target_amount_of(&creator_a, &id), 10);
    assert_eq!(reg.target_amount_of(&creator_b, &id), 20);
}

#[test]
fn zero_contribution_fails_and_escrow_is_unchanged() {
    let creator = [6u8; 32];
    let id = ident(b"garden");
    let mut reg = Registry::new();
    assert_eq!(reg.create_goal(&creator, id.clone(), 100), Ok(()));
    assert_eq!(reg.contribute(&creator, &id, 40, 25), Ok(15));
    assert_eq!(
        reg.contribute(&creator, &id, 1000, 0),
        Err(ErrorCode::InvalidAmount)
    );
    assert_eq!(reg.collected_amount_of(&creator, &id), 25);
    assert_eq!(reg.escrow_balance_of(&creator, &id), 25);
}

#[test]
fn withdrawal_by_non_creator_fails_regardless_of_collected_amount() {
    let creator = [7u8; 32];
    let stranger = [8u8; 32];
    let id = ident(b"piano");
    let mut reg = Registry::new();
    assert_eq!(reg.create_goal(&creator, id.clone(), 100), Ok(()));
    assert_eq!(
        reg.withdraw(&stranger, &creator, &id),
        Err(ErrorCode::Unauthorized)
    );
    assert_eq!(reg.contribute(&creator, &id, 500, 300), Ok(200));
    assert_eq!(
        reg.withdraw(&stranger, &creator, &id),
        Err(ErrorCode::Unauthorized)
    );
    assert_eq!(reg.collected_amount_of(&creator, &id), 300);
    assert_eq!(reg.escrow_balance_of(&creator, &id), 300);
}

#[test]
fn withdrawal_exactly_at_target_succeeds() {
    let creator = [9u8; 32];
    let id = ident(b"exact");
    let mut reg = Registry::new();
    assert_eq!(reg.create_goal(&creator, id.clone(), 250), Ok(()));
    assert_eq!(reg.contribute(&creator, &id, 250, 250), Ok(0));
    assert_eq!(reg.withdraw(&creator, &creator, &id), Ok(250));
    assert_eq!(reg.escrow_balance_of(&creator, &id), 0);
}

#[test]
fn empty_identifier_is_rejected() {
    let creator = [10u8; 32];
    let mut reg = Registry::new();
    assert_eq!(
        reg.create_goal(&creator, ident(b""), 100),
        Err(ErrorCode::InvalidIdentifier)
    );
    assert_eq!(reg.goal_count(), 0);
}

#[test]
fn over_long_identifier_is_rejected_and_limit_is_inclusive() {
    let creator = [11u8; 32];
    let mut reg = Registry::new();
    assert_eq!(
        reg.create_goal(&creator, vec![7u8; 33], 100),
        Err(ErrorCode::InvalidIdentifier)
    );
    assert_eq!(reg.goal_count(), 0);
    assert_eq!(reg.create_goal(&creator, vec![7u8; 32], 100), Ok(()));
    assert_eq!(reg.goal_count(), 1);
}

#[test]
fn contribution_beyond_contributor_balance_fails() {
    let creator = [12u8; 32];
    let id = ident(b"tools");
    let mut reg = Registry::new();
    assert_eq!(reg.create_goal(&creator, id.clone(), 100), Ok(()));
    assert_eq!(
        reg.contribute(&creator, &id, 50, 100),
        Err(ErrorCode::InsufficientBalance)
    );
    assert_eq!(reg.collected_amount_of(&creator, &id), 0);
    assert_eq!(reg.escrow_balance_of(&creator, &id), 0);
}

#[test]
fn overflowing_collected_total_fails_with_checked_arithmetic() {
    let creator = [13u8; 32];
    let id = ident(b"vault");
    let mut reg = Registry::new();
    assert_eq!(reg.create_goal(&creator, id.clone(), 10), Ok(()));
    assert_eq!(reg.contribute(&creator, &id, u64::MAX, u64::MAX), Ok(0));
    assert_eq!(
        reg.contribute(&creator, &id, 10, 1),
        Err(ErrorCode::ArithmeticOverflow)
    );
    assert_eq!(reg.collected_amount_of(&creator, &id), u64::MAX);
    assert_eq!(reg.escrow_balance_of(&creator, &id), u64::MAX);
}

#[test]
fn over_collection_past_the_target_is_permitted() {
    let creator = [14u8; 32];
    let id = ident(b"modest");
    let mut reg = Registry::new();
    assert_eq!(reg.create_goal(&creator, id.clone(), 10), Ok(()));
    assert_eq!(reg.contribute(&creator, &id, 5000, 5000), Ok(0));
    assert_eq!(reg.collected_amount_of(&creator, &id), 5000);
}

#[test]
fn two_goals_of_one_creator_never_share_balance() {
    let creator = [15u8; 32];
    let id_a = ident(b"first");
    let id_b = ident(b"second");
    let mut reg = Registry::new();
    assert_eq!(reg.create_goal(&creator, id_a.clone(), 100), Ok(()));
    assert_eq!(reg.create_goal(&creator, id_b.clone(), 100), Ok(()));
    assert_eq!(reg.contribute(&creator, &id_a, 500, 150), Ok(350));
    assert_eq!(reg.escrow_balance_of(&creator, &id_a), 150);
    assert_eq!(reg.escrow_balance_of(&creator, &id_b), 0);
    assert_eq!(reg.withdraw(&creator, &creator, &id_a), Ok(150));
    assert_eq!(reg.escrow_balance_of(&creator, &id_a), 0);
    assert_eq!(reg.escrow_balance_of(&creator, &id_b), 0);
    assert_eq!(reg.collected_amount_of(&creator, &id_b), 0);
}

#[test]
fn repeated_withdrawal_moves_an_empty_escrow() {
    let creator = [16u8; 32];
    let id = ident(b"repeat");
    let mut reg = Registry::new();
    assert_eq!(reg.create_goal(&creator, id.clone(), 100), Ok(()));
    assert_eq!(reg.contribute(&creator, &id, 100, 100), Ok(0));
    assert_eq!(reg.withdraw(&creator, &creator, &id), Ok(100));
    assert_eq!(reg.collected_amount_of(&creator, &id), 100);
    assert_eq!(reg.withdraw(&creator, &creator, &id), Ok(0));
    assert_eq!(reg.escrow_balance_of(&creator, &id), 0);
    assert_eq!(reg.paid_out_of(&creator, &id), 100);
}

#[test]
fn withdrawal_with_zero_target_and_no_contribution_moves_nothing() {
    let creator = [17u8; 32];
    let id = ident(b"free");
    let mut reg = Registry::new();
    assert_eq!(reg.create_goal(&creator, id.clone(), 0), Ok(()));
    assert_eq!(reg.withdraw(&creator, &creator, &id), Ok(0));
    assert_eq!(reg.collected_amount_of(&creator, &id), 0);
    assert_eq!(reg.paid_out_of(&creator, &id), 0);
}

#[test]
fn lookup_reports_present_and_absent_goals() {
    let creator = [18u8; 32];
    let other = [19u8; 32];
    let id = ident(b"lamp");
    let mut reg = Registry::new();
    assert!(!reg.contains_goal(&creator, &id));
    assert_eq!(reg.create_goal(&creator, id.clone(), 5), Ok(()));
    assert!(reg.contains_goal(&creator, &id));
    assert!(!reg.contains_goal(&other, &id));
    assert!(!reg.contains_goal(&creator, &ident(b"lamps")));
    assert_eq!(reg.find_goal(&creator, &id), Some(0));
    assert_eq!(reg.find_goal(&other, &id), None);
}
