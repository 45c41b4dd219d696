use ecoprado::{Action, ActionStatus, EcoPradoContract, UserInfo, VerificationStatus};

fn text(s: &str) -> String {
    s.to_string()
}

fn contract() -> EcoPradoContract {
    EcoPradoContract::initialize(text("admin"))
}

fn action(id: u32, user: &str, kind: &str, reward: i128, co2: i128) -> Action {
    Action {
        id,
        user_public_key: text(user),
        action_type: text(kind),
        description: text("d"),
        evidence: text("e"),
        reward_amount: reward,
        co2_saved: co2,
        status: ActionStatus::Completed,
        created_at: 7,
    }
}

#[test]
fn register_then_report_scenario() {
    let mut c = contract();
    c.register_user(text("U1"), text("Ana"), text("ciudadano"), text("Querétaro"));
    let reported = c.report_action(
        text("U1"),
        text("reciclaje"),
        text("botellas"),
        text("foto-1"),
        1_700_000_000,
    );
    assert_eq!(
        reported,
        Action {
            id: 1,
            user_public_key: text("U1"),
            action_type: text("reciclaje"),
            description: text("botellas"),
            evidence: text("foto-1"),
            reward_amount: 10,
            co2_saved: 2,
            status: ActionStatus::Completed,
            created_at: 1_700_000_000,
        }
    );
    let user = c.get_user("U1").unwrap();
    assert_eq!(user.balance, 10);
    assert_eq!(user.co2_saved, 2);
    assert_eq!(user.total_actions, 1);
    assert_eq!(user.municipio, "Querétaro");
    assert_eq!(user.verification_status, VerificationStatus::Unverified);
    let actions = c.get_user_actions("U1");
    assert_eq!(actions.len(), 1);
    assert_eq!(actions[0].id, 1);
    assert_eq!(actions[0].reward_amount, 10);
    assert_eq!(actions[0], reported);
}

#[test]
fn action_numbers_go_up_by_one_from_one() {
    let mut c = contract();
    c.register_user(text("U1"), text("Ana"), text("ciudadano"), text("Querétaro"));
    let kinds = ["reciclaje", "otro", "ahorro_agua", "reciclaje", "transporte_verde"];
    for (i, kind) in kinds.iter().enumerate() {
        let user = if i % 2 == 0 { "U1" } else { "nobody" };
        let reported = c.report_action(text(user), text(kind), text("d"), text("e"), i as u64);
        assert_eq!(reported.id, i as u32 + 1);
    }
    let slots = c.actions();
    assert_eq!(slots.len(), 5);
    for (i, slot) in slots.iter().enumerate() {
        assert_eq!(slot.as_ref().unwrap().id, i as u32 + 1);
    }
}

#[test]
fn report_for_an_unregistered_user_still_records_the_action() {
    let mut c = contract();
    c.register_user(text("U1"), text("Ana"), text("ciudadano"), text("Querétaro"));
    let reported = c.report_action(text("ghost"), text("compostaje"), text("d"), text("e"), 3);
    assert_eq!(reported.id, 1);
    assert_eq!(reported.reward_amount, 5);
    assert_eq!(reported.co2_saved, 1);
    assert_eq!(reported.status, ActionStatus::Completed);
    assert_eq!(c.get_user("ghost"), None);
    assert_eq!(c.get_user("U1").unwrap().balance, 0);
    assert_eq!(c.get_user("U1").unwrap().total_actions, 0);
    assert_eq!(c.get_user_actions("ghost").len(), 1);
    assert_eq!(c.users().len(), 1);
}

#[test]
fn credit_adds_up_over_reports() {
    let mut c = contract();
    c.register_user(text("U1"), text("Ana"), text("ciudadano"), text("Querétaro"));
    c.register_user(text("U2"), text("Luis"), text("agricultor"), text("Colón"));
    c.report_action(text("U1"), text("reciclaje"), text("d"), text("e"), 1);
    c.report_action(text("U2"), text("agricultura_sostenible"), text("d"), text("e"), 2);
    c.report_action(text("U1"), text("educacion_ambiental"), text("d"), text("e"), 3);
    c.report_action(text("U1"), text("sin_tabla"), text("d"), text("e"), 4);
    let first = c.get_user("U1").unwrap();
    assert_eq!(first.balance, 10 + 20 + 5);
    assert_eq!(first.co2_saved, 2 + 3 + 1);
    assert_eq!(first.total_actions, 3);
    let second = c.get_user("U2").unwrap();
    assert_eq!(second.balance, 25);
    assert_eq!(second.co2_saved, 8);
    assert_eq!(second.total_actions, 1);
}

#[test]
fn user_actions_are_the_users_own_in_number_order() {
    let mut c = contract();
    c.report_action(text("U1"), text("reciclaje"), text("d"), text("e"), 1);
    c.report_action(text("U2"), text("reciclaje"), text("d"), text("e"), 2);
    c.report_action(text("U1"), text("ahorro_agua"), text("d"), text("e"), 3);
    c.report_action(text("U2"), text("otro"), text("d"), text("e"), 4);
    c.report_action(text("U1"), text("otro"), text("d"), text("e"), 5);
    let ids: Vec<u32> = c.get_user_actions("U1").iter().map(|a| a.id).collect();
    assert_eq!(ids, vec![1, 3, 5]);
    let ids: Vec<u32> = c.get_user_actions("U2").iter().map(|a| a.id).collect();
    assert_eq!(ids, vec![2, 4]);
    assert!(c.get_user_actions("U3").is_empty());
    assert!(contract().get_user_actions("U1").is_empty());
}

#[test]
fn a_missing_number_hides_every_later_action() {
    let mut c = contract();
    for now in 0..5 {
        c.report_action(text("U1"), text("reciclaje"), text("d"), text("e"), now);
    }
    assert_eq!(c.get_user_actions("U1").len(), 5);
    let mut slots = c.actions();
    slots[2] = None;
    let gapped = EcoPradoContract::restore(c.admin(), c.users(), slots).unwrap();
    let ids: Vec<u32> = gapped.get_user_actions("U1").iter().map(|a| a.id).collect();
    assert_eq!(ids, vec![1, 2]);

    let mut slots = c.actions();
    slots[0] = None;
    let gapped = EcoPradoContract::restore(c.admin(), c.users(), slots).unwrap();
    assert!(gapped.get_user_actions("U1").is_empty());

    let mut slots = c.actions();
    slots[4] = None;
    let mut gapped = EcoPradoContract::restore(c.admin(), c.users(), slots).unwrap();
    assert_eq!(gapped.get_user_actions("U1").len(), 4);
    let next = gapped.report_action(text("U1"), text("reciclaje"), text("d"), text("e"), 9);
    assert_eq!(next.id, 6);
    assert_eq!(gapped.get_user_actions("U1").len(), 4);
}

#[test]
fn a_gap_hides_other_users_actions_too() {
    let slots = vec![
        Some(action(1, "U1", "reciclaje", 10, 2)),
        None,
        Some(action(3, "U2", "reciclaje", 10, 2)),
    ];
    let c = EcoPradoContract::restore(text("admin"), Vec::new(), slots).unwrap();
    assert_eq!(c.get_user_actions("U1").len(), 1);
    assert!(c.get_user_actions("U2").is_empty());
}

#[test]
fn snapshot_and_restore_agree() {
    let mut c = contract();
    c.register_user(text("U1"), text("Ana"), text("ciudadano"), text("Querétaro"));
    c.register_user(text("U2"), text("Luis"), text("agricultor"), text("Colón"));
    c.report_action(text("U1"), text("reciclaje"), text("d"), text("e"), 1);
    c.report_action(text("U2"), text("otro"), text("d"), text("e"), 2);
    let restored = EcoPradoContract::restore(c.admin(), c.users(), c.actions()).unwrap();
    assert_eq!(restored.admin(), "admin");
    assert_eq!(restored.users(), c.users());
    assert_eq!(restored.actions(), c.actions());
    assert_eq!(restored.get_user("U1"), c.get_user("U1"));
    assert_eq!(restored.get_user_actions("U2"), c.get_user_actions("U2"));
}

fn user(key: &str, balance: i128, co2: i128, total_actions: u32) -> UserInfo {
    UserInfo {
        public_key: text(key),
        name: text("n"),
        role: text("ciudadano"),
        municipio: text("Querétaro"),
        verification_status: VerificationStatus::Pending,
        balance,
        co2_saved: co2,
        total_actions,
    }
}

fn empty_slots(n: usize) -> Vec<Option<Action>> {
    let mut slots = Vec::new();
    for _ in 0..n {
        slots.push(None);
    }
    slots
}

#[test]
fn restore_accepts_consistent_parts() {
    let c = EcoPradoContract::restore(
        text("admin"),
        vec![user("U1", 50, 16, 2), user("U2", 0, 0, 0)],
        empty_slots(2),
    )
    .unwrap();
    assert_eq!(c.get_user("U1").unwrap().balance, 50);
    assert_eq!(c.get_user("U1").unwrap().verification_status, VerificationStatus::Pending);
    assert_eq!(c.actions().len(), 2);
    assert!(EcoPradoContract::restore(text("a"), Vec::new(), Vec::new()).is_some());
}

#[test]
fn restore_refuses_inconsistent_parts() {
    let refused = |users: Vec<UserInfo>, slots: Vec<Option<Action>>| {
        EcoPradoContract::restore(text("admin"), users, slots).is_none()
    };
    assert!(refused(vec![user("U1", 0, 0, 0), user("U1", 0, 0, 0)], Vec::new()));
    assert!(refused(vec![user("U1", 51, 0, 2)], empty_slots(2)));
    assert!(refused(vec![user("U1", -1, 0, 2)], empty_slots(2)));
    assert!(refused(vec![user("U1", 0, 17, 2)], empty_slots(2)));
    assert!(refused(vec![user("U1", 0, -1, 2)], empty_slots(2)));
    assert!(refused(vec![user("U1", 0, 0, 3)], empty_slots(2)));
    assert!(refused(Vec::new(), vec![Some(action(2, "U1", "reciclaje", 10, 2))]));
    assert!(refused(Vec::new(), vec![None, Some(action(1, "U1", "reciclaje", 10, 2))]));
    assert!(refused(Vec::new(), vec![Some(action(0, "U1", "reciclaje", 10, 2))]));
}
