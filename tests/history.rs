use workshop_fetch::history::{
    add_history_item, clear_all_history, get_all_history, history_record, remove_item, HistoryItem, HistoryState,
};
use workshop_fetch::queue::{Outcome, QueueState};

fn rec(id: &str, path: &str) -> HistoryItem {
    HistoryItem {
        id: id.to_string(),
        steam_id: "1".to_string(),
        name: "n".to_string(),
        install_path: path.to_string(),
        timestamp: 5,
    }
}

#[test]
fn add_replaces_same_id_and_moves_last() {
    let mut h = HistoryState::new();
    add_history_item(&mut h, rec("a", "/1"));
    add_history_item(&mut h, rec("b", "/2"));
    add_history_item(&mut h, rec("a", "/3"));
    assert_eq!(get_all_history(&h), vec![rec("b", "/2"), rec("a", "/3")]);
}

#[test]
fn remove_and_clear() {
    let mut h = HistoryState::from_items(vec![rec("a", "/1"), rec("b", "/2")]);
    assert_eq!(remove_item(&mut h, "a"), Some(rec("a", "/1")));
    assert_eq!(remove_item(&mut h, "a"), None);
    assert_eq!(get_all_history(&h), vec![rec("b", "/2")]);
    clear_all_history(&mut h);
    assert!(get_all_history(&h).is_empty());
}

#[test]
fn loaded_duplicates_keep_last() {
    let h = HistoryState::from_items(vec![rec("a", "/1"), rec("a", "/2")]);
    assert_eq!(get_all_history(&h), vec![rec("a", "/2")]);
}

#[test]
fn record_only_for_completed_job() {
    let mut q = QueueState::new();
    q.add_item_with("j".to_string(), "4000:1".to_string(), "Name".to_string(), 3);
    q.add_item_with("k".to_string(), "570".to_string(), "Other".to_string(), 4);
    q.claim_next_pending();
    q.claim_next_pending();
    let done = q.finalize("j", Outcome::Completed("/dl/Name".to_string())).unwrap();
    let failed = q.finalize("k", Outcome::Failed("x".to_string())).unwrap();
    let r = history_record(&done, 99).unwrap();
    assert_eq!(r.id, "j");
    assert_eq!(r.steam_id, "4000:1");
    assert_eq!(r.name, "Name");
    assert_eq!(r.install_path, "/dl/Name");
    assert_eq!(r.timestamp, 99);
    assert_eq!(history_record(&failed, 99), None);
}
