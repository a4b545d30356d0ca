use std::collections::HashMap;

use gdrive::Entry;
use gdrive::classify::Deletion;
use gdrive::walker::Walker;

fn file(id: &str, size: Option<&str>, perm_ids: Vec<&str>) -> Entry {
    Entry {
        id: id.to_string(),
        name: format!("name-{}", id),
        size: size.map(|s| s.to_string()),
        permission_ids: if perm_ids.is_empty() {
            None
        } else {
            Some(perm_ids.into_iter().map(|s| s.to_string()).collect())
        },
    }
}

fn folder(id: &str) -> Entry {
    Entry {
        id: id.to_string(),
        name: format!("folder-{}", id),
        size: None,
        permission_ids: None,
    }
}

/// A canned snapshot of the hierarchy and the driver loop the unverified
/// edge runs: while the walk is not done, feed it the files or subfolder
/// listing of the folder it is at, recording each request and each deletion.
struct Canned {
    files: HashMap<String, Vec<Entry>>,
    subs: HashMap<String, Vec<Entry>>,
}

fn drive(
    canned: &Canned,
    root: &str,
    recursive: bool,
) -> (Vec<gdrive::FileInfo>, Vec<String>, Vec<Deletion>) {
    let mut walker = Walker::new(root.to_string(), recursive);
    let mut requests: Vec<String> = Vec::new();
    let mut deletions: Vec<Deletion> = Vec::new();
    while !walker.done() {
        let at = walker.current_folder();
        if walker.awaiting_folders() {
            requests.push(format!("folders:{}", at));
            let listing = canned.subs.get(&at).cloned().unwrap_or_default();
            walker.on_folders(listing);
        } else {
            requests.push(format!("files:{}", at));
            let listing = canned.files.get(&at).cloned().unwrap_or_default();
            let mut dels = walker.on_files(listing);
            deletions.append(&mut dels);
        }
    }
    (walker.finish(), requests, deletions)
}

fn two_level_snapshot() -> Canned {
    let mut files = HashMap::new();
    let mut subs = HashMap::new();
    files.insert(
        "root-folder".to_string(),
        vec![
            file("F1", Some("10"), vec!["anyoneWithLink"]),
            file("F2", Some("20"), vec![]),
            file("V1", None, vec![]),
        ],
    );
    subs.insert(
        "root-folder".to_string(),
        vec![folder("S1"), folder("S2")],
    );
    files.insert("S1".to_string(), vec![file("G1", Some("30"), vec!["7k"])]);
    subs.insert("S1".to_string(), vec![]);
    files.insert("S2".to_string(), vec![file("G2", Some("40"), vec![])]);
    subs.insert("S2".to_string(), vec![]);
    Canned { files, subs }
}

#[test]
fn non_recursive_walk_returns_direct_files_in_order() {
    let canned = two_level_snapshot();
    let (out, requests, deletions) = drive(&canned, "root-folder", false);
    let ids: Vec<&str> = out.iter().map(|f| f.id.as_str()).collect();
    assert_eq!(ids, vec!["F1", "F2"]);
    assert!(out[0].shared);
    assert!(!out[1].shared);
    assert_eq!(out[0].size, "10");
    assert_eq!(out[0].name, "name-F1");
    // only the one files listing was requested: no folder-filtered query
    assert_eq!(requests, vec!["files:root-folder".to_string()]);
    assert_eq!(deletions.len(), 0);
}

#[test]
fn recursive_walk_is_depth_first_in_listing_order() {
    let canned = two_level_snapshot();
    let (out, requests, _) = drive(&canned, "root-folder", true);
    let ids: Vec<&str> = out.iter().map(|f| f.id.as_str()).collect();
    assert_eq!(ids, vec!["F1", "F2", "G1", "G2"]);
    assert_eq!(
        requests,
        vec![
            "files:root-folder".to_string(),
            "folders:root-folder".to_string(),
            "files:S1".to_string(),
            "folders:S1".to_string(),
            "files:S2".to_string(),
            "folders:S2".to_string(),
        ],
    );
}

#[test]
fn deeper_nesting_keeps_depth_first_order() {
    let mut files = HashMap::new();
    let mut subs = HashMap::new();
    files.insert("top".to_string(), vec![file("A", Some("1"), vec![])]);
    subs.insert("top".to_string(), vec![folder("S1"), folder("S2")]);
    files.insert("S1".to_string(), vec![file("B", Some("2"), vec![])]);
    subs.insert("S1".to_string(), vec![folder("S1a")]);
    files.insert("S1a".to_string(), vec![file("C", Some("3"), vec![])]);
    subs.insert("S1a".to_string(), vec![]);
    files.insert("S2".to_string(), vec![file("D", Some("4"), vec![])]);
    subs.insert("S2".to_string(), vec![]);
    let canned = Canned { files, subs };
    let (out, _, _) = drive(&canned, "top", true);
    let ids: Vec<&str> = out.iter().map(|f| f.id.as_str()).collect();
    // all of S1's subtree comes before S2
    assert_eq!(ids, vec!["A", "B", "C", "D"]);
}

#[test]
fn sizeless_entries_are_excluded_everywhere() {
    let mut files = HashMap::new();
    let mut subs = HashMap::new();
    files.insert(
        "top".to_string(),
        vec![
            file("V1", None, vec!["anyoneWithLink"]),
            file("A", Some("5"), vec![]),
            file("V2", None, vec![]),
        ],
    );
    subs.insert("top".to_string(), vec![]);
    let canned = Canned { files, subs };
    let (out, _, _) = drive(&canned, "top", true);
    let ids: Vec<&str> = out.iter().map(|f| f.id.as_str()).collect();
    assert_eq!(ids, vec!["A"]);
}

#[test]
fn walk_reports_deletions_with_owning_file_ids() {
    let mut files = HashMap::new();
    let mut subs = HashMap::new();
    files.insert(
        "top".to_string(),
        vec![
            file("F1", Some("1"), vec!["1k", "anyoneWithLink"]),
            file("F2", Some("2"), vec!["abck", "22k"]),
        ],
    );
    subs.insert("top".to_string(), vec![]);
    let canned = Canned { files, subs };
    let (out, _, deletions) = drive(&canned, "top", true);
    assert!(out[0].shared);
    assert!(!out[1].shared);
    let pairs: Vec<(String, String)> = deletions
        .into_iter()
        .map(|d| (d.file_id, d.permission_id))
        .collect();
    assert_eq!(
        pairs,
        vec![
            ("F1".to_string(), "1k".to_string()),
            ("F2".to_string(), "22k".to_string()),
        ],
    );
}
