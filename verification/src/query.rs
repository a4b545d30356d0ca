use vstd::prelude::*;
use vstd::string::StringExecFns;

verus! {

/// The page size every listing request asks for; the service caps pages at
/// this many items.
pub const PAGE_SIZE: u32 = 1000;

/// The service-defined root container's identifier.
pub open spec fn root_folder_spec() -> Seq<char> {
    "root"@
}

/// The identifier of the service-defined root container.
pub fn root_folder_id() -> (s: &'static str)
    ensures
        s@ == root_folder_spec(),
{
    "root"
}

/// The fixed projection every listing request asks for: identifier, name,
/// size and permission identifiers of each item, plus the next-page token.
pub open spec fn listing_fields_spec() -> Seq<char> {
    "files(id,name,size,permissionIds),nextPageToken"@
}

/// The field projection to send with every listing request.
pub fn listing_fields() -> (s: &'static str)
    ensures
        s@ == listing_fields_spec(),
{
    "files(id,name,size,permissionIds),nextPageToken"
}

/// Filter term selecting folder entries.
pub open spec fn folder_filter_spec() -> Seq<char> {
    "mimeType contains \"application/vnd.google-apps.folder\""@
}

/// Filter term selecting folder entries.
pub fn folder_filter() -> (s: &'static str)
    ensures
        s@ == folder_filter_spec(),
{
    "mimeType contains \"application/vnd.google-apps.folder\""
}

/// Filter term selecting non-folder entries.
pub open spec fn file_filter_spec() -> Seq<char> {
    "not mimeType contains \"application/vnd.google-apps.folder\""@
}

/// Filter term selecting non-folder entries.
pub fn file_filter() -> (s: &'static str)
    ensures
        s@ == file_filter_spec(),
{
    "not mimeType contains \"application/vnd.google-apps.folder\""
}

/// The conjunction a listing query sends: the parent clause for `folder_id`,
/// the caller's extra filter term verbatim (the empty string if none), and
/// the fixed not-trashed clause, joined with `and`. An absent extra term
/// leaves an empty conjunct, exactly as the deployed query builder does.
pub open spec fn query_spec(folder_id: Seq<char>, extra: Seq<char>) -> Seq<char> {
    "\""@ + folder_id + "\" in parents and "@ + extra + " and trashed = false"@
}

/// Builds the listing query string for the children of `folder_id`, with the
/// optional extra filter term spliced in verbatim.
pub fn build_query(folder_id: &str, extra: Option<&str>) -> (q: String)
    ensures
        q@ == query_spec(
            folder_id@,
            match extra {
                Some(e) => e@,
                None => Seq::empty(),
            },
        ),
{
    let mut q = String::from_str("\"");
    q.append(folder_id);
    q.append("\" in parents and ");
    match extra {
        Some(e) => q.append(e),
        None => (),
    }
    q.append(" and trashed = false");
    proof {
        assert(q@ =~= query_spec(
            folder_id@,
            match extra {
                Some(e) => e@,
                None => Seq::empty(),
            },
        ));
    }
    q
}

/// The query that lists the direct subfolders of `folder_id`.
pub fn folder_listing_query(folder_id: &str) -> (q: String)
    ensures
        q@ == query_spec(folder_id@, folder_filter_spec()),
{
    build_query(folder_id, Some(folder_filter()))
}

/// The query that lists the direct non-folder children of `folder_id`.
pub fn file_listing_query(folder_id: &str) -> (q: String)
    ensures
        q@ == query_spec(folder_id@, file_filter_spec()),
{
    build_query(folder_id, Some(file_filter()))
}

} // verus!
