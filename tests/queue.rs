use workshop_fetch::queue::{DownloadItem, FinalizeError, Outcome, QueueState, Status};

fn store_with(ids: &[&str]) -> QueueState {
    let mut q = QueueState::new();
    for (k, id) in ids.iter().enumerate() {
        q.add_item_with(id.to_string(), format!("src{}", k), format!("name{}", k), 100 + k as u64);
    }
    q
}

fn ids(items: &[DownloadItem]) -> Vec<String> {
    items.iter().map(|i| i.id.clone()).collect()
}

#[test]
fn enqueue_keeps_insertion_order() {
    let q = store_with(&["c", "a", "b", "d"]);
    let items = q.get_queue();
    assert_eq!(ids(&items), vec!["c", "a", "b", "d"]);
    assert_eq!(items[1].steam_id, "src1");
    assert_eq!(items[1].name, "name1");
    assert_eq!(items[1].created_at, 101);
    assert!(items.iter().all(|i| i.status == Status::Pending && i.install_path.is_none()));
}

#[test]
fn order_survives_claims_and_finalize() {
    let mut q = store_with(&["x", "y", "z"]);
    q.claim_next_pending();
    q.finalize("x", Outcome::Failed("boom".to_string())).unwrap();
    q.add_item_with("w".to_string(), "s".to_string(), "n".to_string(), 7);
    assert_eq!(ids(&q.get_queue()), vec!["x", "y", "z", "w"]);
}

#[test]
fn add_item_assigns_fresh_uuid() {
    let mut q = QueueState::new();
    let a = q.add_item("570".to_string(), "Game".to_string()).unwrap();
    let b = q.add_item("4000:1".to_string(), "Mod".to_string()).unwrap();
    assert_eq!(a.len(), 36);
    assert_eq!(b.len(), 36);
    assert_ne!(a, b);
    assert_eq!(a.matches('-').count(), 4);
    let items = q.get_queue();
    assert_eq!(ids(&items), vec![a, b]);
    assert_eq!(items[0].steam_id, "570");
    assert!(items[0].created_at > 0);
}

#[test]
fn claim_takes_first_pending_once() {
    let mut q = store_with(&["a", "b"]);
    let first = q.claim_next_pending().unwrap();
    assert_eq!(first.id, "a");
    assert_eq!(first.status, Status::Downloading { progress: 0 });
    let second = q.claim_next_pending().unwrap();
    assert_eq!(second.id, "b");
    assert!(q.claim_next_pending().is_none());
    let items = q.get_queue();
    assert_eq!(items[0].status, Status::Downloading { progress: 0 });
    assert_eq!(items[1].status, Status::Downloading { progress: 0 });
}

#[test]
fn claim_on_empty_store_is_none() {
    let mut q = QueueState::new();
    assert!(q.claim_next_pending().is_none());
    assert!(q.get_queue().is_empty());
}

#[test]
fn claim_skips_finished_jobs() {
    let mut q = store_with(&["a", "b", "c"]);
    q.claim_next_pending();
    q.finalize("a", Outcome::Completed("/d/a".to_string())).unwrap();
    let next = q.claim_next_pending().unwrap();
    assert_eq!(next.id, "b");
}

#[test]
fn update_progress_sets_downloading_progress() {
    let mut q = store_with(&["a"]);
    q.claim_next_pending();
    q.update_progress("a", 4250);
    assert_eq!(q.get_queue()[0].status, Status::Downloading { progress: 4250 });
}

#[test]
fn update_progress_on_terminal_is_noop() {
    let mut q = store_with(&["a", "b"]);
    q.claim_next_pending();
    q.claim_next_pending();
    q.finalize("a", Outcome::Completed("/dl/a".to_string())).unwrap();
    q.finalize("b", Outcome::Failed("Download failed".to_string())).unwrap();
    let before = q.get_queue();
    q.update_progress("a", 5000);
    q.update_progress("b", 5000);
    assert_eq!(q.get_queue(), before);
    assert_eq!(before[0].status, Status::Completed);
    assert_eq!(before[1].status, Status::Failed("Download failed".to_string()));
}

#[test]
fn update_progress_on_pending_or_unknown_is_noop() {
    let mut q = store_with(&["a"]);
    q.update_progress("a", 10);
    q.update_progress("zzz", 10);
    assert_eq!(q.get_queue()[0].status, Status::Pending);
}

#[test]
fn finalize_completed_sets_install_path() {
    let mut q = store_with(&["a"]);
    q.claim_next_pending();
    let done = q.finalize("a", Outcome::Completed("/dl/Name".to_string())).unwrap();
    assert_eq!(done.status, Status::Completed);
    assert_eq!(done.install_path, Some("/dl/Name".to_string()));
    assert_eq!(q.get_queue()[0], done);
}

#[test]
fn finalize_failed_keeps_reason() {
    let mut q = store_with(&["a"]);
    q.claim_next_pending();
    let done = q.finalize("a", Outcome::Failed("Process crashed".to_string())).unwrap();
    assert_eq!(done.status, Status::Failed("Process crashed".to_string()));
    assert_eq!(done.install_path, None);
}

#[test]
fn finalize_unknown_id_is_error() {
    let mut q = store_with(&["a"]);
    q.claim_next_pending();
    let before = q.get_queue();
    assert_eq!(q.finalize("nope", Outcome::Completed("/x".to_string())), Err(FinalizeError::UnknownJob));
    assert_eq!(q.get_queue(), before);
}

#[test]
fn finalize_twice_is_rejected() {
    let mut q = store_with(&["a"]);
    assert_eq!(q.finalize("a", Outcome::Completed("/x".to_string())), Err(FinalizeError::NotDownloading));
    q.claim_next_pending();
    q.finalize("a", Outcome::Failed("e".to_string())).unwrap();
    assert_eq!(q.finalize("a", Outcome::Completed("/x".to_string())), Err(FinalizeError::NotDownloading));
    assert_eq!(q.get_queue()[0].status, Status::Failed("e".to_string()));
}
