use ecoprado::journal::Journal;
use ecoprado::store::Store;
use ecoprado::text::same_text;

#[test]
fn same_text_compares_whole_texts() {
    assert!(same_text("", ""));
    assert!(same_text("reciclaje", "reciclaje"));
    assert!(same_text("Querétaro", "Querétaro"));
    assert!(!same_text("reciclaje", "reciclaj"));
    assert!(!same_text("reciclaje", "reciclajE"));
    assert!(!same_text("", " "));
    assert!(!same_text("Queretaro", "Querétaro"));
    assert!(!same_text("é", "e\u{301}"));
}

#[test]
fn store_get_set_has() {
    let mut store: Store<i128> = Store::new();
    assert_eq!(store.len(), 0);
    assert!(!store.has("a"));
    assert_eq!(store.get("a"), None);
    store.set("a", 1);
    store.set("b", 2);
    assert!(store.has("a"));
    assert!(store.has("b"));
    assert!(!store.has("c"));
    assert!(!store.has(""));
    assert_eq!(store.get("a"), Some(&1));
    assert_eq!(store.get("b"), Some(&2));
    assert_eq!(store.len(), 2);
}

#[test]
fn store_set_replaces_the_value_under_a_key() {
    let mut store: Store<i128> = Store::new();
    store.set("a", 1);
    store.set("b", 2);
    store.set("a", 3);
    assert_eq!(store.get("a"), Some(&3));
    assert_eq!(store.get("b"), Some(&2));
    assert_eq!(store.len(), 2);
    assert_eq!(store.key_at(0), "a");
    assert_eq!(store.value_at(0), &3);
    assert_eq!(store.key_at(1), "b");
    assert_eq!(store.value_at(1), &2);
}

#[test]
fn store_takes_the_empty_key() {
    let mut store: Store<u8> = Store::new();
    store.set("", 9);
    assert_eq!(store.get(""), Some(&9));
    assert_eq!(store.get(" "), None);
}

#[test]
fn journal_issues_numbers_from_one() {
    let mut journal: Journal<&str> = Journal::new();
    assert_eq!(journal.last_issued(), 0);
    assert_eq!(journal.get(0), None);
    assert_eq!(journal.get(1), None);
    assert_eq!(journal.issue(), 1);
    assert_eq!(journal.issue(), 2);
    assert_eq!(journal.issue(), 3);
    assert_eq!(journal.last_issued(), 3);
    assert_eq!(journal.get(2), None);
    journal.put(2, "b");
    journal.put(1, "a");
    assert_eq!(journal.get(1), Some(&"a"));
    assert_eq!(journal.get(2), Some(&"b"));
    assert_eq!(journal.get(3), None);
    assert_eq!(journal.get(4), None);
    assert_eq!(journal.get(u32::MAX), None);
    journal.put(2, "c");
    assert_eq!(journal.get(2), Some(&"c"));
    assert_eq!(journal.slots(), &vec![Some("a"), Some("c"), None]);
}

#[test]
fn journal_from_slots_keeps_the_places() {
    let mut journal = Journal::from_slots(vec![None, Some(7u8), None]).unwrap();
    assert_eq!(journal.last_issued(), 3);
    assert_eq!(journal.get(1), None);
    assert_eq!(journal.get(2), Some(&7));
    assert_eq!(journal.get(3), None);
    assert_eq!(journal.issue(), 4);
    let empty: Journal<u8> = Journal::from_slots(Vec::new()).unwrap();
    assert_eq!(empty.last_issued(), 0);
}
