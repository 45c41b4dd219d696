use ecoprado::{ActionStatus, EcoPradoContract, UserInfo, VerificationStatus};

fn text(s: &str) -> String {
    s.to_string()
}

fn contract() -> EcoPradoContract {
    EcoPradoContract::initialize(text("admin"))
}

#[test]
fn initialize_keeps_the_admin_and_nothing_else() {
    let c = contract();
    assert_eq!(c.admin(), "admin");
    assert!(c.users().is_empty());
    assert!(c.actions().is_empty());
    assert_eq!(c.get_user("admin"), None);
}

#[test]
fn register_user_creates_an_unverified_empty_account() {
    let mut c = contract();
    let user = c.register_user(text("U1"), text("Ana"), text("ciudadano"), text("Querétaro"));
    let expected = UserInfo {
        public_key: text("U1"),
        name: text("Ana"),
        role: text("ciudadano"),
        municipio: text("Querétaro"),
        verification_status: VerificationStatus::Unverified,
        balance: 0,
        co2_saved: 0,
        total_actions: 0,
    };
    assert_eq!(user, expected);
    assert_eq!(c.get_user("U1"), Some(expected));
}

#[test]
fn get_user_of_an_unknown_key_is_none() {
    let mut c = contract();
    c.register_user(text("U1"), text("Ana"), text("ciudadano"), text("Querétaro"));
    assert_eq!(c.get_user("U2"), None);
    assert_eq!(c.get_user("u1"), None);
    assert_eq!(c.get_user(""), None);
}

#[test]
fn get_user_changes_nothing() {
    let mut c = contract();
    c.register_user(text("U1"), text("Ana"), text("ciudadano"), text("Querétaro"));
    let first = c.get_user("U1");
    let second = c.get_user("U1");
    assert_eq!(first, second);
    assert_eq!(c.users().len(), 1);
}

#[test]
fn registering_again_overwrites_the_account() {
    let mut c = contract();
    c.register_user(text("U1"), text("Ana"), text("ciudadano"), text("Querétaro"));
    c.report_action(text("U1"), text("reciclaje"), text("d"), text("e"), 1);
    assert_eq!(c.get_user("U1").unwrap().balance, 10);
    let again = c.register_user(text("U1"), text("Ana B"), text("negocio"), text("Colón"));
    assert_eq!(again.balance, 0);
    let stored = c.get_user("U1").unwrap();
    assert_eq!(stored.name, "Ana B");
    assert_eq!(stored.role, "negocio");
    assert_eq!(stored.municipio, "Colón");
    assert_eq!(stored.balance, 0);
    assert_eq!(stored.co2_saved, 0);
    assert_eq!(stored.total_actions, 0);
    assert_eq!(c.users().len(), 1);
}

#[test]
fn accounts_are_kept_apart() {
    let mut c = contract();
    c.register_user(text("U1"), text("Ana"), text("ciudadano"), text("Querétaro"));
    c.register_user(text("U2"), text("Luis"), text("agricultor"), text("Colón"));
    assert_eq!(c.get_user("U1").unwrap().name, "Ana");
    assert_eq!(c.get_user("U2").unwrap().name, "Luis");
    assert_eq!(c.users().len(), 2);
}

#[test]
fn ranking_lists_known_users_of_the_municipality_in_lookup_order() {
    let mut c = contract();
    c.register_user(text("user3"), text("C"), text("ciudadano"), text("Querétaro"));
    c.register_user(text("user1"), text("A"), text("ciudadano"), text("Querétaro"));
    c.register_user(text("user2"), text("B"), text("ciudadano"), text("Colón"));
    c.register_user(text("user9"), text("Z"), text("ciudadano"), text("Querétaro"));
    c.report_action(text("user3"), text("agricultura_sostenible"), text("d"), text("e"), 1);
    let ranking = c.get_ranking("Querétaro");
    let keys: Vec<&str> = ranking.iter().map(|u| u.public_key.as_str()).collect();
    assert_eq!(keys, vec!["user1", "user3"]);
    assert_eq!(ranking[1].co2_saved, 8);
    let other = c.get_ranking("Colón");
    assert_eq!(other.len(), 1);
    assert_eq!(other[0].public_key, "user2");
}

#[test]
fn ranking_of_a_municipality_without_known_users_is_empty() {
    let mut c = contract();
    assert!(c.get_ranking("Querétaro").is_empty());
    c.register_user(text("U1"), text("Ana"), text("ciudadano"), text("Querétaro"));
    assert!(c.get_ranking("Querétaro").is_empty());
    c.register_user(text("user5"), text("E"), text("ciudadano"), text("Colón"));
    assert!(c.get_ranking("Querétaro").is_empty());
    assert_eq!(c.get_ranking("Colón").len(), 1);
}

#[test]
fn status_words() {
    assert_eq!(VerificationStatus::Unverified.label(), "unverified");
    assert_eq!(VerificationStatus::Pending.label(), "pending");
    assert_eq!(VerificationStatus::Verified.label(), "verified");
    assert_eq!(VerificationStatus::from_label("unverified"), Some(VerificationStatus::Unverified));
    assert_eq!(VerificationStatus::from_label("pending"), Some(VerificationStatus::Pending));
    assert_eq!(VerificationStatus::from_label("verified"), Some(VerificationStatus::Verified));
    assert_eq!(VerificationStatus::from_label("Verified"), None);
    assert_eq!(VerificationStatus::from_label(""), None);
    assert_eq!(ActionStatus::Pending.label(), "pending");
    assert_eq!(ActionStatus::Completed.label(), "completed");
    assert_eq!(ActionStatus::Rejected.label(), "rejected");
    assert_eq!(ActionStatus::from_label("pending"), Some(ActionStatus::Pending));
    assert_eq!(ActionStatus::from_label("completed"), Some(ActionStatus::Completed));
    assert_eq!(ActionStatus::from_label("rejected"), Some(ActionStatus::Rejected));
    assert_eq!(ActionStatus::from_label("done"), None);
}
