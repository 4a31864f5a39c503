use gish::registry::WatchRegistry;

#[test]
fn one_handle_per_path() {
    let mut reg = WatchRegistry::new();
    assert!(reg.register(String::from("/repo/a.txt")));
    assert!(reg.register(String::from("/repo/b.txt")));
    assert!(!reg.register(String::from("/repo/a.txt")));
    assert_eq!(reg.watch_count(), 2);
}

#[test]
fn registering_from_an_enumeration_drops_duplicates() {
    let paths = vec![
        String::from("/repo"),
        String::from("/repo/a.txt"),
        String::from("/repo"),
        String::from("/repo/b.txt"),
        String::from("/repo/a.txt"),
    ];
    let reg = WatchRegistry::from_paths(&paths);
    assert_eq!(reg.watch_count(), 3);
}

#[test]
fn registration_keeps_first_occurrence_order() {
    let paths = vec![
        String::from("/repo/b.txt"),
        String::from("/repo/a.txt"),
        String::from("/repo/b.txt"),
    ];
    let reg = WatchRegistry::from_paths(&paths);
    assert_eq!(reg.watched_paths(), &vec!["/repo/b.txt", "/repo/a.txt"]);
}

#[test]
fn empty_registry_watches_nothing() {
    let reg = WatchRegistry::new();
    assert_eq!(reg.watch_count(), 0);
    let none: Vec<String> = Vec::new();
    let reg = WatchRegistry::from_paths(&none);
    assert_eq!(reg.watch_count(), 0);
}
