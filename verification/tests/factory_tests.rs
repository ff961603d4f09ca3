use rps_escrow::account::create_new_account_id;
use rps_escrow::errors::GameError;
use rps_escrow::factory::{
    assert_deposit, Action, Contract, MIN_PLAYER_COST, MIN_STORAGE_COST, ONE_NEAR,
};

fn coordinator_account() -> String {
    String::from("factory")
}

#[test]
fn test_enter_waiting_list_bad_deposit() {
    let mut factory = Contract::new();
    let deposit = MIN_PLAYER_COST / 2;
    let this = coordinator_account();
    let r = factory.enter_waiting_list(String::from("alice"), deposit, &this);
    assert!(matches!(r, Err(GameError::InsufficientDeposit)));
    assert_eq!(factory.waiting_list.len(), 0);
    assert_eq!(factory.next_game_id, 0);
}

#[test]
fn test_on_game_finished_bad_caller() {
    let mut factory = Contract::new();
    let deposit = MIN_PLAYER_COST;
    let this = coordinator_account();
    factory
        .enter_waiting_list(String::from("alice"), deposit, &this)
        .unwrap();
    factory
        .enter_waiting_list(String::from("bob"), deposit, &this)
        .unwrap();
    // The deploy has not reported back, so no record is live yet and
    // nobody may settle, bob least of all.
    let bob = String::from("bob");
    let r = factory.on_game_finished(&bob, Some(bob.clone()));
    assert!(matches!(r, Err(GameError::Authorization)));
}

#[test]
fn test_pairing_three_deposits() {
    // Deposits of 0.5, 0.6 and 0.5: the second entry triggers exactly
    // one pairing of the first two, the 0.1 surplus goes back to the
    // second entrant, and the third entry stays queued.
    let mut factory = Contract::new();
    let this = coordinator_account();
    let half = MIN_PLAYER_COST;
    let surplus = ONE_NEAR / 10;

    let acts = factory
        .enter_waiting_list(String::from("alice"), half, &this)
        .unwrap();
    assert!(acts.is_empty());
    assert_eq!(factory.waiting_list.len(), 1);

    let acts = factory
        .enter_waiting_list(String::from("bob"), half + surplus, &this)
        .unwrap();
    assert_eq!(
        acts,
        vec![
            Action::Transfer { to: String::from("bob"), amount: surplus },
            Action::CreateGame {
                account: String::from("match_0.factory"),
                funding: MIN_STORAGE_COST,
                player1: String::from("alice"),
                player2: String::from("bob"),
                pot: half,
            },
        ]
    );
    assert_eq!(factory.waiting_list.len(), 0);
    assert_eq!(factory.next_game_id, 1);
    assert_eq!(factory.game_instances.len(), 0);

    let acts = factory
        .enter_waiting_list(String::from("carol"), half, &this)
        .unwrap();
    assert!(acts.is_empty());
    assert_eq!(factory.waiting_list.len(), 1);
    assert_eq!(factory.waiting_list[0].account, "carol");
    assert_eq!(factory.next_game_id, 1);
}

#[test]
fn test_fee_retention() {
    // A pot formed from two equal deposits of v is recorded as
    // floor(2 * v * 0.95).
    let mut factory = Contract::new();
    let game = String::from("match_0.factory");
    let v = MIN_PLAYER_COST;
    let acts = factory.on_game_contract_deployed(
        &game,
        v,
        String::from("alice"),
        String::from("bob"),
        true,
    );
    assert!(acts.is_empty());
    assert_eq!(factory.game_instances.len(), 1);
    assert_eq!(factory.game_instances[0].account, "match_0.factory");
    assert_eq!(factory.game_instances[0].pot, 2 * v / 100 * 95);
    assert_eq!(factory.game_instances[0].pot, 950_000_000_000_000_000_000_000);
}

#[test]
fn test_failed_deploy_refunds_each_player() {
    let mut factory = Contract::new();
    let game = String::from("match_0.factory");
    let v = MIN_PLAYER_COST;
    let acts = factory.on_game_contract_deployed(
        &game,
        v,
        String::from("alice"),
        String::from("bob"),
        false,
    );
    assert_eq!(
        acts,
        vec![
            Action::Transfer { to: String::from("alice"), amount: v },
            Action::Transfer { to: String::from("bob"), amount: v },
        ]
    );
    assert_eq!(factory.game_instances.len(), 0);
}

#[test]
fn test_match_finished_pays_winner_and_tears_down() {
    let mut factory = Contract::new();
    let game = String::from("match_0.factory");
    let v = MIN_PLAYER_COST;
    factory.on_game_contract_deployed(&game, v, String::from("alice"), String::from("bob"), true);
    let pot = factory.game_instances[0].pot;

    let acts = factory
        .on_game_finished(&game, Some(String::from("alice")))
        .unwrap();
    assert_eq!(
        acts,
        vec![
            Action::Transfer { to: String::from("alice"), amount: pot },
            Action::DeleteGame { account: game.clone() },
        ]
    );
    // The record stays live until the teardown callback fires; then it
    // goes, even when the teardown itself failed.
    assert_eq!(factory.game_instances.len(), 1);
    factory.on_game_contract_deleted(&game, false);
    assert_eq!(factory.game_instances.len(), 0);

    // With the record gone the unit may not report again.
    let r = factory.on_game_finished(&game, None);
    assert!(matches!(r, Err(GameError::Authorization)));
}

#[test]
fn test_draw_transfers_nothing_and_still_tears_down() {
    let mut factory = Contract::new();
    let game = String::from("match_0.factory");
    factory.on_game_contract_deployed(
        &game,
        MIN_PLAYER_COST,
        String::from("alice"),
        String::from("bob"),
        true,
    );
    let acts = factory.on_game_finished(&game, None).unwrap();
    assert_eq!(acts, vec![Action::DeleteGame { account: game.clone() }]);
    factory.on_game_contract_deleted(&game, true);
    assert_eq!(factory.game_instances.len(), 0);
}

#[test]
fn test_create_new_account_id() {
    assert_eq!(
        create_new_account_id(0, &String::from("factory")),
        "match_0.factory"
    );
    assert_eq!(
        create_new_account_id(7, &String::from("factory")),
        "match_7.factory"
    );
    assert_eq!(
        create_new_account_id(1234, &String::from("rps.near")),
        "match_1234.rps.near"
    );
}

#[test]
fn test_assert_deposit() {
    assert!(assert_deposit(MIN_PLAYER_COST).is_ok());
    assert!(assert_deposit(MIN_PLAYER_COST + 1).is_ok());
    assert!(matches!(
        assert_deposit(MIN_PLAYER_COST - 1),
        Err(GameError::InsufficientDeposit)
    ));
}

#[test]
fn test_two_pairs_get_consecutive_game_ids() {
    let mut factory = Contract::new();
    let this = coordinator_account();
    let v = MIN_PLAYER_COST;
    for name in ["a1", "b1"] {
        factory
            .enter_waiting_list(String::from(name), v, &this)
            .unwrap();
    }
    assert_eq!(factory.next_game_id, 1);
    for name in ["a2", "b2"] {
        factory
            .enter_waiting_list(String::from(name), v, &this)
            .unwrap();
    }
    assert_eq!(factory.next_game_id, 2);
    assert_eq!(factory.waiting_list.len(), 0);
}

#[test]
fn test_account_id_at_counter_limit() {
    assert_eq!(
        create_new_account_id(u32::MAX, &String::from("f")),
        "match_4294967295.f"
    );
}
