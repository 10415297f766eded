use unveil_rs::pending::PendingChangeSet;
use unveil_rs::watcher::{
    any_is_file, classify, is_file, ChangeKind, ChangeWatcher, FsEvent, Reaction, WatchTarget,
    DEBOUNCE_MILLIS,
};

fn event(kind: ChangeKind, paths: &[&str]) -> FsEvent {
    FsEvent {
        kind,
        paths: paths.iter().map(|path| path.to_string()).collect(),
    }
}

fn sorted(mut paths: Vec<String>) -> Vec<String> {
    paths.sort();
    paths
}

#[test]
fn the_window_is_short() {
    assert_eq!(DEBOUNCE_MILLIS, 50);
}

#[test]
fn what_is_watched_from_the_start() {
    assert_eq!(
        ChangeWatcher::targets(),
        vec![
            WatchTarget { path: "slides".to_string(), recursive: true },
            WatchTarget { path: "public/unveil.css".to_string(), recursive: false },
            WatchTarget { path: "unveil.toml".to_string(), recursive: false },
        ]
    );
}

#[test]
fn a_file_is_named_by_its_last_component() {
    assert!(is_file("unveil.toml", "unveil.toml"));
    assert!(is_file("/home/me/talk/unveil.toml", "unveil.toml"));
    assert!(is_file("./public/unveil.css", "unveil.css"));
    assert!(!is_file("/home/me/talk/my-unveil.toml", "unveil.toml"));
    assert!(!is_file("unveil.toml.bak", "unveil.toml"));
    assert!(!is_file("", "unveil.toml"));
    assert!(any_is_file(
        &vec!["slides/a.md".to_string(), "x/unveil.css".to_string()],
        "unveil.css"
    ));
    assert!(!any_is_file(&vec!["slides/a.md".to_string()], "unveil.css"));
    assert!(!any_is_file(&vec![], "unveil.css"));
}

#[test]
fn every_change_is_recorded_and_nothing_else() {
    for kind in [ChangeKind::Create, ChangeKind::Modify, ChangeKind::Remove, ChangeKind::Rename] {
        assert_eq!(
            classify(&event(kind, &["slides/a.md"])),
            Reaction { rearm_style: false, rearm_config: false, record: true }
        );
    }
    assert_eq!(
        classify(&event(ChangeKind::Other, &["unveil.toml"])),
        Reaction { rearm_style: false, rearm_config: false, record: false }
    );
}

#[test]
fn removal_of_a_single_file_rearms_its_watch() {
    for kind in [ChangeKind::Remove, ChangeKind::Rename] {
        assert_eq!(
            classify(&event(kind, &["/talk/public/unveil.css"])),
            Reaction { rearm_style: true, rearm_config: false, record: true }
        );
        assert_eq!(
            classify(&event(kind, &["/talk/unveil.toml"])),
            Reaction { rearm_style: false, rearm_config: true, record: true }
        );
        assert_eq!(
            classify(&event(kind, &["unveil.toml", "public/unveil.css"])),
            Reaction { rearm_style: true, rearm_config: true, record: true }
        );
    }
    for kind in [ChangeKind::Create, ChangeKind::Modify] {
        assert_eq!(
            classify(&event(kind, &["unveil.toml", "public/unveil.css"])),
            Reaction { rearm_style: false, rearm_config: false, record: true }
        );
    }
}

#[test]
fn a_burst_of_events_gives_one_batch_with_all_paths() {
    let mut watcher = ChangeWatcher::new();
    let first = watcher.on_event(&event(ChangeKind::Create, &["slides/a.md"]));
    assert!(first.start_window);
    assert!(first.rearm.is_empty());
    let second = watcher.on_event(&event(ChangeKind::Modify, &["slides/a.md", "slides/b.md"]));
    assert!(!second.start_window);
    let third = watcher.on_event(&event(ChangeKind::Other, &["slides/c.md"]));
    assert!(!third.start_window);
    let fourth = watcher.on_event(&event(ChangeKind::Remove, &["/talk/unveil.toml"]));
    assert!(!fourth.start_window);
    assert_eq!(
        fourth.rearm,
        vec![WatchTarget { path: "unveil.toml".to_string(), recursive: false }]
    );
    assert_eq!(
        watcher.on_quiet().map(sorted),
        Some(vec![
            "/talk/unveil.toml".to_string(),
            "slides/a.md".to_string(),
            "slides/b.md".to_string(),
        ])
    );
    assert_eq!(watcher.on_quiet(), None);
    let next = watcher.on_event(&event(ChangeKind::Modify, &["slides/b.md"]));
    assert!(next.start_window);
    assert_eq!(watcher.on_quiet(), Some(vec!["slides/b.md".to_string()]));
}

#[test]
fn a_burst_without_changes_gives_no_batch() {
    let mut watcher = ChangeWatcher::new();
    assert!(watcher.on_event(&event(ChangeKind::Other, &["slides/a.md"])).start_window);
    assert!(!watcher.on_event(&event(ChangeKind::Other, &["slides/b.md"])).start_window);
    assert_eq!(watcher.on_quiet(), None);
    assert_eq!(ChangeWatcher::new().on_quiet(), None);
}

#[test]
fn removed_stylesheet_is_rearmed_and_still_pending() {
    let mut watcher = ChangeWatcher::new();
    let step = watcher.on_event(&event(ChangeKind::Remove, &["public/unveil.css"]));
    assert_eq!(
        step.rearm,
        vec![WatchTarget { path: "public/unveil.css".to_string(), recursive: false }]
    );
    assert_eq!(watcher.on_quiet(), Some(vec!["public/unveil.css".to_string()]));
    let step = watcher.on_event(&event(
        ChangeKind::Rename,
        &["public/unveil.css", "/talk/unveil.toml"],
    ));
    assert_eq!(
        step.rearm,
        vec![
            WatchTarget { path: "public/unveil.css".to_string(), recursive: false },
            WatchTarget { path: "unveil.toml".to_string(), recursive: false },
        ]
    );
}

#[test]
fn pending_paths_are_a_set() {
    let mut pending = PendingChangeSet::new();
    assert!(pending.is_empty());
    assert_eq!(pending.take(), None);
    pending.insert("a");
    pending.insert("b");
    pending.insert("a");
    assert!(pending.contains("a"));
    assert!(pending.contains("b"));
    assert!(!pending.contains("c"));
    assert!(!pending.is_empty());
    pending.extend(&vec!["b".to_string(), "c".to_string(), "c".to_string()]);
    assert_eq!(
        pending.take().map(sorted),
        Some(vec!["a".to_string(), "b".to_string(), "c".to_string()])
    );
    assert!(pending.is_empty());
    assert!(!pending.contains("a"));
    assert_eq!(pending.take(), None);
}
