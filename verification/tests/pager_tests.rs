use gdrive::Entry;
use gdrive::pager::Pager;

fn entry(id: &str) -> Entry {
    Entry {
        id: id.to_string(),
        name: format!("name-{}", id),
        size: Some("1".to_string()),
        permission_ids: None,
    }
}

fn page(prefix: &str, n: usize) -> Vec<Entry> {
    (0..n).map(|i| entry(&format!("{}-{}", prefix, i))).collect()
}

/// One listing call against a canned gateway: each page is either
/// `(items, next_token)` or a failure.
type CannedPage = Result<(Vec<Entry>, Option<String>), String>;

/// The driver loop the unverified edge runs: request pages until the pager
/// is done, aborting on the first failed page with no partial result.
fn drive(pages: Vec<CannedPage>) -> Result<Vec<Entry>, String> {
    let mut pager = Pager::new();
    let mut supply = pages.into_iter();
    while !pager.is_done() {
        let _token = pager.next_token().clone();
        let (items, next) = supply.next().expect("gateway ran out of pages")?;
        pager.absorb(items, next);
    }
    Ok(pager.into_entries())
}

#[test]
fn three_pages_drain_in_order() {
    let pages: Vec<CannedPage> = vec![
        Ok((page("a", 1000), Some("token-2".to_string()))),
        Ok((page("b", 1000), Some("token-3".to_string()))),
        Ok((page("c", 3), None)),
    ];
    let all = drive(pages).expect("listing should succeed");
    assert_eq!(all.len(), 2003);
    assert_eq!(all[0].id, "a-0");
    assert_eq!(all[999].id, "a-999");
    assert_eq!(all[1000].id, "b-0");
    assert_eq!(all[1999].id, "b-999");
    assert_eq!(all[2000].id, "c-0");
    assert_eq!(all[2002].id, "c-2");
}

#[test]
fn failure_on_second_page_returns_error_and_no_partial_result() {
    let pages: Vec<CannedPage> = vec![
        Ok((page("a", 1000), Some("token-2".to_string()))),
        Err("page 2 failed".to_string()),
    ];
    let out = drive(pages);
    match out {
        Err(e) => assert_eq!(e, "page 2 failed"),
        Ok(_) => panic!("a failed page must abort the whole listing"),
    }
}

#[test]
fn tokens_flow_from_gateway_to_next_request() {
    let mut pager = Pager::new();
    assert!(!pager.is_done());
    assert_eq!(pager.next_token(), &None);
    pager.absorb(page("a", 2), Some("token-2".to_string()));
    assert!(!pager.is_done());
    assert_eq!(pager.next_token(), &Some("token-2".to_string()));
    pager.absorb(page("b", 2), None);
    assert!(pager.is_done());
    let all = pager.into_entries();
    assert_eq!(all.len(), 4);
    assert_eq!(all[2].id, "b-0");
}

#[test]
fn empty_single_page_listing_is_empty() {
    let pages: Vec<CannedPage> = vec![Ok((Vec::new(), None))];
    let all = drive(pages).expect("listing should succeed");
    assert_eq!(all.len(), 0);
}
