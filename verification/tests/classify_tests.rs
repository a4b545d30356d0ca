use gdrive::Entry;
use gdrive::classify::classify;
use gdrive::classify::is_stale_grant;

fn entry_with_ids(ids: Option<Vec<&str>>) -> Entry {
    Entry {
        id: "file-1".to_string(),
        name: "report.txt".to_string(),
        size: Some("42".to_string()),
        permission_ids: ids.map(|v| v.into_iter().map(|s| s.to_string()).collect()),
    }
}

#[test]
fn no_permission_identifiers_not_shared_no_deletions() {
    let c = classify(&entry_with_ids(None));
    assert!(!c.shared);
    assert_eq!(c.deletions.len(), 0);

    let c = classify(&entry_with_ids(Some(vec![])));
    assert!(!c.shared);
    assert_eq!(c.deletions.len(), 0);
}

#[test]
fn anyone_with_link_alone_shared_no_deletions() {
    let c = classify(&entry_with_ids(Some(vec!["anyoneWithLink"])));
    assert!(c.shared);
    assert_eq!(c.deletions.len(), 0);
}

#[test]
fn numeric_prefix_k_suffix_deleted() {
    let c = classify(&entry_with_ids(Some(vec!["123k"])));
    assert!(!c.shared);
    assert_eq!(c.deletions.len(), 1);
    assert_eq!(c.deletions[0].file_id, "file-1");
    assert_eq!(c.deletions[0].permission_id, "123k");
}

// The identifier `k` alone has an empty prefix, which counts as all-numeric
// vacuously: one deletion is issued. This is the deployed evaluation rule,
// kept intentionally.
#[test]
fn bare_k_identifier_deleted() {
    let c = classify(&entry_with_ids(Some(vec!["k"])));
    assert!(!c.shared);
    assert_eq!(c.deletions.len(), 1);
    assert_eq!(c.deletions[0].permission_id, "k");
}

#[test]
fn non_numeric_prefix_not_deleted() {
    let c = classify(&entry_with_ids(Some(vec!["abck"])));
    assert!(!c.shared);
    assert_eq!(c.deletions.len(), 0);
}

#[test]
fn share_and_stale_predicates_are_independent() {
    let c = classify(&entry_with_ids(Some(vec!["anyoneWithLink", "456k"])));
    assert!(c.shared);
    assert_eq!(c.deletions.len(), 1);
    assert_eq!(c.deletions[0].file_id, "file-1");
    assert_eq!(c.deletions[0].permission_id, "456k");
}

#[test]
fn deletions_keep_identifier_order() {
    let c = classify(&entry_with_ids(Some(vec!["9k", "plain", "k", "77k"])));
    assert!(!c.shared);
    let ids: Vec<&str> = c.deletions.iter().map(|d| d.permission_id.as_str()).collect();
    assert_eq!(ids, vec!["9k", "k", "77k"]);
}

#[test]
fn stale_grant_predicate_cases() {
    assert!(is_stale_grant("123k"));
    assert!(is_stale_grant("k"));
    assert!(is_stale_grant("0k"));
    assert!(!is_stale_grant("abck"));
    assert!(!is_stale_grant(""));
    assert!(!is_stale_grant("123"));
    assert!(!is_stale_grant("12k3"));
    assert!(!is_stale_grant("k123k"));
    // `anyoneWithLink` ends in `k` but its prefix is not numeric: the two
    // predicates never both hold of it.
    assert!(!is_stale_grant("anyoneWithLink"));
}
