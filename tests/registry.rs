use workshop_fetch::registry::ProcessManager;

#[test]
fn kill_all_takes_both_and_empties() {
    let mut pm: ProcessManager<&str> = ProcessManager::new();
    pm.register(11, "first");
    pm.register(22, "second");
    assert_eq!(pm.pids(), vec![11, 22]);
    assert_eq!(pm.take_all(), vec!["first", "second"]);
    assert_eq!(pm.len(), 0);
    assert!(pm.take_all().is_empty());
    assert_eq!(pm.len(), 0);
}

#[test]
fn remove_process_is_idempotent() {
    let mut pm: ProcessManager<u8> = ProcessManager::new();
    pm.register(1, 10);
    pm.register(2, 20);
    pm.register(3, 30);
    pm.remove_process(2);
    assert_eq!(pm.pids(), vec![1, 3]);
    pm.remove_process(2);
    assert_eq!(pm.pids(), vec![1, 3]);
    assert_eq!(pm.take_all(), vec![10, 30]);
}
