use cmdex::fs_events::{is_relevant, FsEventKind};

#[test]
fn ignores_git_events_but_accepts_workspace_changes() {
    let source = vec!["/tmp/project/src/main.rs".to_string()];
    let git = vec!["/tmp/project/.git/index".to_string()];

    assert!(is_relevant(FsEventKind::Create, &source));
    assert!(!is_relevant(FsEventKind::Create, &git));
}

#[test]
fn only_changes_refresh_the_workspace() {
    let source = vec!["/tmp/project/src/main.rs".to_string()];
    assert!(is_relevant(FsEventKind::Modify, &source));
    assert!(is_relevant(FsEventKind::Remove, &source));
    assert!(is_relevant(FsEventKind::Any, &source));
    assert!(!is_relevant(FsEventKind::Access, &source));
    assert!(!is_relevant(FsEventKind::Other, &source));
    assert!(is_relevant(FsEventKind::Create, &Vec::new()));
    let mixed = vec![
        "/tmp/project/a.rs".to_string(),
        "/tmp/project/.git".to_string(),
    ];
    assert!(!is_relevant(FsEventKind::Modify, &mixed));
    let lookalike = vec!["/tmp/project/.github/ci.yml".to_string()];
    assert!(is_relevant(FsEventKind::Modify, &lookalike));
}
