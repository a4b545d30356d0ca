use gdrive::query::PAGE_SIZE;
use gdrive::query::build_query;
use gdrive::query::file_filter;
use gdrive::query::file_listing_query;
use gdrive::query::folder_filter;
use gdrive::query::folder_listing_query;
use gdrive::query::listing_fields;
use gdrive::query::root_folder_id;

#[test]
fn query_joins_three_terms_with_and() {
    assert_eq!(
        build_query("folder-7", Some("x = 1")),
        "\"folder-7\" in parents and x = 1 and trashed = false",
    );
}

// An absent extra term still occupies its place in the conjunction, leaving
// the doubled space the deployed query builder produces.
#[test]
fn absent_extra_term_leaves_empty_conjunct() {
    assert_eq!(
        build_query("folder-7", None),
        "\"folder-7\" in parents and  and trashed = false",
    );
}

#[test]
fn file_listing_query_negates_folder_mime_filter() {
    assert_eq!(
        file_listing_query("f1"),
        "\"f1\" in parents and not mimeType contains \"application/vnd.google-apps.folder\" and trashed = false",
    );
}

#[test]
fn folder_listing_query_uses_folder_mime_filter() {
    assert_eq!(
        folder_listing_query("f1"),
        "\"f1\" in parents and mimeType contains \"application/vnd.google-apps.folder\" and trashed = false",
    );
}

#[test]
fn filters_and_constants_are_fixed() {
    assert_eq!(
        folder_filter(),
        "mimeType contains \"application/vnd.google-apps.folder\"",
    );
    assert_eq!(
        file_filter(),
        "not mimeType contains \"application/vnd.google-apps.folder\"",
    );
    assert_eq!(root_folder_id(), "root");
    assert_eq!(PAGE_SIZE, 1000);
    assert_eq!(
        listing_fields(),
        "files(id,name,size,permissionIds),nextPageToken",
    );
}
