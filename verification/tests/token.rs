use ecoprado::{AuthorizationError, Authorizer, PradonsitosToken, Redemption};

fn text(s: &str) -> String {
    s.to_string()
}

fn token() -> PradonsitosToken {
    PradonsitosToken::initialize(text("admin"), text("Pradonsitos"), text("PRAD"))
}

fn sum_of_balances(token: &PradonsitosToken) -> i128 {
    token.balances().iter().map(|entry| entry.1).sum()
}

#[test]
fn initialize_sets_the_token_up() {
    let t = token();
    assert_eq!(t.admin(), "admin");
    assert_eq!(t.name(), "Pradonsitos");
    assert_eq!(t.symbol(), "PRAD");
    assert_eq!(t.decimals(), 7);
    assert_eq!(t.total_supply(), 1_000_000);
    assert_eq!(t.balance_of("admin"), 1_000_000);
    assert_eq!(t.balance_of("A"), 0);
    assert_eq!(sum_of_balances(&t), t.total_supply());
    assert!(t.redemptions().is_empty());
}

#[test]
fn mint_transfer_burn_scenario() {
    let mut t = token();
    let initial_supply = t.total_supply();
    assert_eq!(t.mint(&Authorizer::of("admin"), "A", 100), Ok(true));
    assert_eq!(t.transfer(&Authorizer::of("A"), "A", "B", 40), Ok(true));
    assert_eq!(t.burn(&Authorizer::of("B"), "B", 10), Ok(true));
    assert_eq!(t.balance_of("A"), 60);
    assert_eq!(t.balance_of("B"), 30);
    assert_eq!(t.total_supply(), initial_supply + 100 - 10);
    assert_eq!(sum_of_balances(&t), t.total_supply());
}

#[test]
fn supply_is_the_sum_of_balances_after_every_operation() {
    let mut t = token();
    let admin = Authorizer::of("admin");
    let a = Authorizer::of("A");
    let b = Authorizer::of("B");
    assert_eq!(sum_of_balances(&t), t.total_supply());
    let _ = t.mint(&admin, "A", 500);
    assert_eq!(sum_of_balances(&t), t.total_supply());
    let _ = t.transfer(&a, "A", "B", 120);
    assert_eq!(sum_of_balances(&t), t.total_supply());
    let _ = t.transfer(&a, "A", "B", 9_999);
    assert_eq!(sum_of_balances(&t), t.total_supply());
    let _ = t.burn(&b, "B", 20);
    assert_eq!(sum_of_balances(&t), t.total_supply());
    let _ = t.burn(&b, "B", 101);
    assert_eq!(sum_of_balances(&t), t.total_supply());
    let _ = t.transfer(&b, "B", "B", 50);
    assert_eq!(sum_of_balances(&t), t.total_supply());
    let _ = t.mint(&a, "A", 5);
    assert_eq!(sum_of_balances(&t), t.total_supply());
    let _ = t.reward_eco_action(&admin, "C", "reforestacion");
    assert_eq!(sum_of_balances(&t), t.total_supply());
    let _ = t.redeem_tokens(&a, "A", 80, "shop", 11);
    assert_eq!(sum_of_balances(&t), t.total_supply());
    let _ = t.transfer(&admin, "admin", "A", -3);
    assert_eq!(sum_of_balances(&t), t.total_supply());
    assert_eq!(t.total_supply(), 1_000_000 + 500 - 20 + 30 - 80);
    assert_eq!(t.balance_of("A"), 300);
    assert_eq!(t.balance_of("B"), 100);
    assert_eq!(t.balance_of("C"), 30);
    assert!(t.balances().iter().all(|entry| entry.1 >= 0));
}

#[test]
fn transfer_beyond_the_balance_changes_nothing() {
    let mut t = token();
    let _ = t.mint(&Authorizer::of("admin"), "A", 30);
    let _ = t.transfer(&Authorizer::of("A"), "A", "B", 5);
    let supply = t.total_supply();
    assert_eq!(t.transfer(&Authorizer::of("A"), "A", "B", 26), Ok(false));
    assert_eq!(t.balance_of("A"), 25);
    assert_eq!(t.balance_of("B"), 5);
    assert_eq!(t.total_supply(), supply);
    assert_eq!(t.transfer(&Authorizer::of("C"), "C", "B", 1), Ok(false));
    assert_eq!(t.balance_of("C"), 0);
    assert_eq!(t.balance_of("B"), 5);
}

#[test]
fn transfer_of_the_whole_balance_and_of_nothing() {
    let mut t = token();
    let _ = t.mint(&Authorizer::of("admin"), "A", 30);
    assert_eq!(t.transfer(&Authorizer::of("A"), "A", "B", 0), Ok(true));
    assert_eq!(t.balance_of("A"), 30);
    assert_eq!(t.balance_of("B"), 0);
    assert_eq!(t.transfer(&Authorizer::of("A"), "A", "B", 30), Ok(true));
    assert_eq!(t.balance_of("A"), 0);
    assert_eq!(t.balance_of("B"), 30);
}

#[test]
fn transfer_to_oneself_moves_nothing() {
    let mut t = token();
    let _ = t.mint(&Authorizer::of("admin"), "A", 30);
    let supply = t.total_supply();
    assert_eq!(t.transfer(&Authorizer::of("A"), "A", "A", 30), Ok(true));
    assert_eq!(t.balance_of("A"), 30);
    assert_eq!(t.transfer(&Authorizer::of("A"), "A", "A", 31), Ok(false));
    assert_eq!(t.balance_of("A"), 30);
    assert_eq!(t.total_supply(), supply);
    assert_eq!(sum_of_balances(&t), supply);
}

#[test]
fn negative_amounts_are_refused() {
    let mut t = token();
    let _ = t.mint(&Authorizer::of("admin"), "A", 30);
    let _ = t.mint(&Authorizer::of("admin"), "B", 30);
    let supply = t.total_supply();
    assert_eq!(t.transfer(&Authorizer::of("A"), "A", "B", -5), Ok(false));
    assert_eq!(t.burn(&Authorizer::of("A"), "A", -5), Ok(false));
    assert_eq!(t.mint(&Authorizer::of("admin"), "A", -5), Ok(false));
    assert_eq!(t.redeem_tokens(&Authorizer::of("A"), "A", -5, "shop", 1), Ok(false));
    assert_eq!(t.balance_of("A"), 30);
    assert_eq!(t.balance_of("B"), 30);
    assert_eq!(t.total_supply(), supply);
}

#[test]
fn protected_operations_ask_for_the_right_address() {
    let mut t = token();
    let admin = Authorizer::of("admin");
    let a = Authorizer::of("A");
    let nobody = Authorizer::none();
    let _ = t.mint(&admin, "A", 100);
    let unauthorized = Err(AuthorizationError::Unauthorized);
    assert_eq!(t.transfer(&admin, "A", "B", 1), unauthorized);
    assert_eq!(t.transfer(&Authorizer::of("B"), "A", "B", 1), unauthorized);
    assert_eq!(t.transfer(&nobody, "A", "B", 1), unauthorized);
    assert_eq!(t.burn(&admin, "A", 1), unauthorized);
    assert_eq!(t.burn(&nobody, "A", 1), unauthorized);
    assert_eq!(t.mint(&a, "A", 1), unauthorized);
    assert_eq!(t.mint(&nobody, "A", 1), unauthorized);
    assert_eq!(t.redeem_tokens(&admin, "A", 1, "shop", 1), unauthorized);
    assert_eq!(t.redeem_tokens(&nobody, "A", 1, "shop", 1), unauthorized);
    assert_eq!(
        t.reward_eco_action(&a, "A", "reciclaje"),
        Err(AuthorizationError::Unauthorized)
    );
    assert_eq!(
        t.reward_eco_action(&nobody, "A", "reciclaje"),
        Err(AuthorizationError::Unauthorized)
    );
    assert_eq!(t.balance_of("A"), 100);
    assert_eq!(t.balance_of("B"), 0);
    assert_eq!(t.total_supply(), 1_000_100);
    assert!(t.redemptions().is_empty());
}

#[test]
fn an_authorizer_with_several_addresses() {
    let mut both = Authorizer::of("A");
    both.add("admin");
    assert!(both.authorizes("A"));
    assert!(both.authorizes("admin"));
    assert!(!both.authorizes("B"));
    assert!(!both.authorizes(""));
    assert!(!Authorizer::none().authorizes("A"));
    let mut t = token();
    assert_eq!(t.mint(&both, "A", 10), Ok(true));
    assert_eq!(t.burn(&both, "A", 4), Ok(true));
    assert_eq!(t.balance_of("A"), 6);
}

#[test]
fn mint_credits_and_raises_the_supply() {
    let mut t = token();
    assert_eq!(t.mint(&Authorizer::of("admin"), "A", 0), Ok(true));
    assert_eq!(t.total_supply(), 1_000_000);
    assert_eq!(t.mint(&Authorizer::of("admin"), "A", 7), Ok(true));
    assert_eq!(t.mint(&Authorizer::of("admin"), "admin", 3), Ok(true));
    assert_eq!(t.balance_of("A"), 7);
    assert_eq!(t.balance_of("admin"), 1_000_003);
    assert_eq!(t.total_supply(), 1_000_010);
}

#[test]
fn mint_without_room_in_the_supply_is_refused() {
    let mut t = token();
    let admin = Authorizer::of("admin");
    let room = i128::MAX - t.total_supply();
    assert_eq!(t.mint(&admin, "A", room + 1), Ok(false));
    assert_eq!(t.mint(&admin, "A", i128::MAX), Ok(false));
    assert_eq!(t.balance_of("A"), 0);
    assert_eq!(t.total_supply(), 1_000_000);
    assert_eq!(t.mint(&admin, "A", room), Ok(true));
    assert_eq!(t.total_supply(), i128::MAX);
    assert_eq!(t.balance_of("A"), room);
    assert_eq!(t.mint(&admin, "A", 1), Ok(false));
    assert_eq!(t.reward_eco_action(&admin, "B", "reciclaje"), Ok(0));
    assert_eq!(t.balance_of("B"), 0);
    assert_eq!(t.total_supply(), i128::MAX);
    assert_eq!(t.transfer(&Authorizer::of("A"), "A", "admin", room), Ok(true));
    assert_eq!(t.balance_of("admin"), i128::MAX);
}

#[test]
fn burn_debits_and_lowers_the_supply() {
    let mut t = token();
    let _ = t.mint(&Authorizer::of("admin"), "A", 30);
    assert_eq!(t.burn(&Authorizer::of("A"), "A", 31), Ok(false));
    assert_eq!(t.balance_of("A"), 30);
    assert_eq!(t.total_supply(), 1_000_030);
    assert_eq!(t.burn(&Authorizer::of("A"), "A", 30), Ok(true));
    assert_eq!(t.balance_of("A"), 0);
    assert_eq!(t.total_supply(), 1_000_000);
    assert_eq!(t.burn(&Authorizer::of("A"), "A", 1), Ok(false));
    assert_eq!(t.burn(&Authorizer::of("A"), "A", 0), Ok(true));
}

#[test]
fn reward_mints_the_amount_of_the_table() {
    let mut t = token();
    let admin = Authorizer::of("admin");
    assert_eq!(t.reward_eco_action(&admin, "A", "reforestacion"), Ok(30));
    assert_eq!(t.reward_eco_action(&admin, "A", "compostaje"), Ok(18));
    assert_eq!(t.reward_eco_action(&admin, "A", "nada"), Ok(5));
    assert_eq!(t.reward_eco_action(&admin, "B", "limpieza_publica"), Ok(12));
    assert_eq!(t.balance_of("A"), 53);
    assert_eq!(t.balance_of("B"), 12);
    assert_eq!(t.total_supply(), 1_000_065);
}

#[test]
fn redeem_beyond_the_balance_scenario() {
    let mut t = token();
    let _ = t.mint(&Authorizer::of("admin"), "user", 30);
    let supply = t.total_supply();
    assert_eq!(t.redeem_tokens(&Authorizer::of("user"), "user", 50, "business", 9), Ok(false));
    assert!(t.redemptions().is_empty());
    assert_eq!(t.balance_of("user"), 30);
    assert_eq!(t.total_supply(), supply);
}

#[test]
fn redeem_burns_and_logs_under_the_next_number() {
    let mut t = token();
    let user = Authorizer::of("user");
    let _ = t.mint(&Authorizer::of("admin"), "user", 30);
    assert_eq!(t.redeem_tokens(&user, "user", 10, "cafe", 100), Ok(true));
    assert_eq!(t.redeem_tokens(&user, "user", 21, "cafe", 101), Ok(false));
    assert_eq!(t.redeem_tokens(&user, "user", 20, "tienda", 102), Ok(true));
    assert_eq!(t.balance_of("user"), 0);
    assert_eq!(t.balance_of("cafe"), 0);
    assert_eq!(t.total_supply(), 1_000_000);
    assert_eq!(
        t.redemptions(),
        vec![
            Some(Redemption {
                id: 1,
                user: text("user"),
                business: text("cafe"),
                amount: 10,
                timestamp: 100,
            }),
            Some(Redemption {
                id: 2,
                user: text("user"),
                business: text("tienda"),
                amount: 20,
                timestamp: 102,
            }),
        ]
    );
}

#[test]
fn redeem_of_nothing_is_refused() {
    let mut t = token();
    let _ = t.mint(&Authorizer::of("admin"), "user", 30);
    assert_eq!(t.redeem_tokens(&Authorizer::of("user"), "user", 0, "cafe", 1), Ok(false));
    assert!(t.redemptions().is_empty());
    assert_eq!(t.balance_of("user"), 30);
}

fn redemption(id: u32, amount: i128) -> Redemption {
    Redemption { id, user: text("A"), business: text("B"), amount, timestamp: 3 }
}

fn restore(
    total_supply: i128,
    balances: Vec<(String, i128)>,
    redemptions: Vec<Option<Redemption>>,
) -> Option<PradonsitosToken> {
    PradonsitosToken::restore(text("admin"), text("n"), text("s"), total_supply, balances, redemptions)
}

#[test]
fn token_snapshot_and_restore_agree() {
    let mut t = token();
    let _ = t.mint(&Authorizer::of("admin"), "A", 100);
    let _ = t.transfer(&Authorizer::of("A"), "A", "B", 40);
    let _ = t.redeem_tokens(&Authorizer::of("B"), "B", 15, "cafe", 8);
    let restored = PradonsitosToken::restore(
        t.admin(),
        t.name(),
        t.symbol(),
        t.total_supply(),
        t.balances(),
        t.redemptions(),
    )
    .unwrap();
    assert_eq!(restored.admin(), "admin");
    assert_eq!(restored.name(), "Pradonsitos");
    assert_eq!(restored.symbol(), "PRAD");
    assert_eq!(restored.decimals(), 7);
    assert_eq!(restored.total_supply(), 1_000_085);
    assert_eq!(restored.balances(), t.balances());
    assert_eq!(restored.redemptions(), t.redemptions());
    assert_eq!(restored.balance_of("A"), 60);
    assert_eq!(restored.balance_of("B"), 25);
}

#[test]
fn token_restore_accepts_consistent_parts() {
    let mut t = restore(
        70,
        vec![(text("A"), 30), (text("B"), 0), (text("C"), 40)],
        vec![None, Some(redemption(2, 1))],
    )
    .unwrap();
    assert_eq!(t.balance_of("C"), 40);
    assert_eq!(t.total_supply(), 70);
    assert_eq!(t.redeem_tokens(&Authorizer::of("A"), "A", 30, "B", 1), Ok(true));
    assert_eq!(t.redemptions()[2].as_ref().unwrap().id, 3);
    assert!(restore(0, Vec::new(), Vec::new()).is_some());
    assert!(restore(i128::MAX, vec![(text("A"), i128::MAX)], Vec::new()).is_some());
}

#[test]
fn token_restore_refuses_inconsistent_parts() {
    assert!(restore(71, vec![(text("A"), 30), (text("C"), 40)], Vec::new()).is_none());
    assert!(restore(60, vec![(text("A"), 30), (text("A"), 30)], Vec::new()).is_none());
    assert!(restore(20, vec![(text("A"), 30), (text("B"), -10)], Vec::new()).is_none());
    assert!(restore(1, vec![(text("A"), i128::MAX), (text("B"), 2)], Vec::new()).is_none());
    assert!(restore(0, Vec::new(), vec![Some(redemption(2, 1))]).is_none());
    assert!(restore(0, Vec::new(), vec![Some(redemption(1, 0))]).is_none());
    assert!(restore(0, Vec::new(), vec![Some(redemption(1, -4))]).is_none());
}
