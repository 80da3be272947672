use gitti::listing::{
    collect_files, commit_list, delta_to_status, is_build_path, is_current_branch, order_branches,
    DeltaKind,
};

#[test]
fn status_words() {
    assert_eq!(delta_to_status(DeltaKind::Added), "added");
    assert_eq!(delta_to_status(DeltaKind::Deleted), "deleted");
    assert_eq!(delta_to_status(DeltaKind::Modified), "modified");
    assert_eq!(delta_to_status(DeltaKind::Other), "changed");
}

#[test]
fn build_directory_is_left_out() {
    assert!(is_build_path("target/debug/x"));
    assert!(!is_build_path("target"));
    assert!(!is_build_path("src/target/x"));
    let entries = vec![
        ("src/a.rs".to_string(), DeltaKind::Modified),
        ("target/x.o".to_string(), DeltaKind::Added),
        ("b.txt".to_string(), DeltaKind::Added),
    ];
    let files = collect_files(&entries, false);
    let got: Vec<(String, String)> = files.iter().map(|f| (f.path.clone(), f.status.clone())).collect();
    assert_eq!(
        got,
        vec![
            ("src/a.rs".to_string(), "modified".to_string()),
            ("b.txt".to_string(), "added".to_string())
        ]
    );
}

#[test]
fn repeats_are_dropped_only_when_asked() {
    let entries = vec![
        ("a".to_string(), DeltaKind::Added),
        ("b".to_string(), DeltaKind::Modified),
        ("a".to_string(), DeltaKind::Modified),
    ];
    let dedup = collect_files(&entries, true);
    assert_eq!(dedup.len(), 2);
    assert_eq!(dedup[0].status, "added");
    let all = collect_files(&entries, false);
    assert_eq!(all.len(), 3);
}

#[test]
fn commit_list_leads_with_live_changes() {
    let history = vec![
        ("0123456789abcdef".to_string(), "fix".to_string(), "ann".to_string()),
        ("abc".to_string(), "init".to_string(), "bo".to_string()),
    ];
    let with = commit_list(&history, true);
    assert_eq!(with.len(), 3);
    assert!(with[0].is_local_changes);
    assert_eq!(with[0].message, "Local Changes");
    assert_eq!(with[0].sha, "");
    assert_eq!(with[1].short_sha, "0123456");
    assert_eq!(with[1].sha, "0123456789abcdef");
    assert_eq!(with[1].author, "ann");
    assert_eq!(with[2].short_sha, "abc");
    assert!(!with[2].is_local_changes);
    let without = commit_list(&history, false);
    assert_eq!(without.len(), 2);
    assert_eq!(without[0].message, "fix");
}

#[test]
fn current_branch_is_matched_by_name() {
    let cur = Some("main".to_string());
    assert!(is_current_branch("main", &cur));
    assert!(!is_current_branch("dev", &cur));
    assert!(!is_current_branch("main", &None));
}

#[test]
fn branches_list_the_current_one_first_then_by_name() {
    let names = vec!["zeta".to_string(), "alpha".to_string(), "main".to_string(), "Beta".to_string()];
    let list = order_branches(&names, &Some("main".to_string()));
    let got: Vec<(&str, bool)> = list.iter().map(|b| (b.name.as_str(), b.is_current)).collect();
    assert_eq!(got, vec![("main", true), ("Beta", false), ("alpha", false), ("zeta", false)]);
    assert!(list.iter().all(|b| !b.is_remote));
    let none = order_branches(&names, &None);
    let got: Vec<&str> = none.iter().map(|b| b.name.as_str()).collect();
    assert_eq!(got, vec!["Beta", "alpha", "main", "zeta"]);
    assert!(order_branches(&Vec::new(), &None).is_empty());
}
