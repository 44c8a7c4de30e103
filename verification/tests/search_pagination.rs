use catalog_search::catalog::{CatalogItem, OwnerKind, OwnerRef, TextScore, VersionInfo};
use catalog_search::engine::{search, PageRef};
use catalog_search::errors::SearchError;
use catalog_search::params::SearchRequest;

fn b(s: &str) -> Vec<u8> {
    s.as_bytes().to_vec()
}

fn item(id: i64, name: &str) -> CatalogItem {
    CatalogItem {
        id,
        name: b(name),
        created_at: 0,
        updated_at: 0,
        downloads: 0,
        recent_downloads: None,
        versions: vec![VersionInfo { major: 1, minor: 0, patch: 0, prerelease: false, yanked: false }],
        keywords: vec![],
        categories: vec![],
        owners: vec![OwnerRef { owner_id: 1, kind: OwnerKind::User, deleted: false }],
        followers: vec![],
    }
}

fn req() -> SearchRequest {
    SearchRequest {
        q: None,
        sort: None,
        category: None,
        all_keywords: None,
        keyword: None,
        letter: None,
        user_id: None,
        team_id: None,
        following: false,
        ids: None,
        include_yanked: false,
        page: None,
        per_page: None,
        seek: None,
    }
}

fn no_scores(n: usize) -> Vec<TextScore> {
    vec![TextScore { matched: false, rank: 0 }; n]
}

fn links_catalog() -> Vec<CatalogItem> {
    vec![
        item(1, "pagination_links_1"),
        item(2, "pagination_links_2"),
        item(3, "pagination_links_3"),
    ]
}

#[test]
fn pagination_links_included_if_applicable() {
    let catalog = links_catalog();
    let scores = no_scores(3);
    let at_page = |p: &str| SearchRequest {
        letter: Some(b("p")),
        page: Some(b(p)),
        per_page: Some(b("1")),
        ..req()
    };

    let page1 = search(&catalog, &scores, &at_page("1"), None).unwrap();
    let page2 = search(&catalog, &scores, &at_page("2"), None).unwrap();
    let page3 = search(&catalog, &scores, &at_page("3"), None).unwrap();
    let page4 = search(&catalog, &scores, &at_page("4"), None).unwrap();

    assert!(matches!(page1.next_page, Some(PageRef::Numeric(2))));
    assert!(page1.prev_page.is_none());
    assert!(matches!(page2.next_page, Some(PageRef::Numeric(3))));
    assert!(matches!(page2.prev_page, Some(PageRef::Numeric(1))));
    assert!(page4.next_page.is_none());
    assert!(matches!(page3.prev_page, Some(PageRef::Numeric(2))));
    // total counts the filtered result set on every page, including one
    // past the end
    assert!([page1.total, page2.total, page3.total].iter().all(|w| *w == 3));
    assert_eq!(page4.total, 3);
    assert!(page4.rows.is_empty());
}

#[test]
fn seek_based_pagination() {
    let catalog = links_catalog();
    let scores = no_scores(3);

    let mut current = SearchRequest { per_page: Some(b("1")), ..req() };
    let mut results: Vec<Vec<u8>> = Vec::new();
    let mut calls = 0;
    loop {
        let resp = search(&catalog, &scores, &current, None).unwrap();
        calls += 1;

        results.extend(resp.rows.iter().map(|r| r.name.clone()));

        assert!(resp.prev_page.is_none());
        // total stays the count of the whole filtered result set on
        // every page of the walk
        assert_eq!(resp.total, 3);
        match resp.next_page {
            Some(PageRef::Token(t)) => {
                assert_eq!(resp.rows.len(), 1);
                current.seek = Some(t);
            }
            Some(PageRef::Numeric(_)) => panic!("seek walk produced a numeric link"),
            None => {
                assert!(resp.rows.is_empty());
                break;
            }
        }
    }

    assert_eq!(calls, 4);
    assert_eq!(
        results,
        vec![b("pagination_links_1"), b("pagination_links_2"), b("pagination_links_3")]
    );
}

#[test]
fn test_pages_work_even_with_seek_based_pagination() {
    let catalog = links_catalog();
    let scores = no_scores(3);

    // Without an explicit page the next link is a continuation token
    let first = search(
        &catalog,
        &scores,
        &SearchRequest { per_page: Some(b("1")), ..req() },
        None,
    )
    .unwrap();
    assert!(matches!(first.next_page, Some(PageRef::Token(_))));
    assert_eq!(first.total, 3);

    // An explicit page reverts to offset pagination
    let second = search(
        &catalog,
        &scores,
        &SearchRequest { page: Some(b("2")), per_page: Some(b("1")), ..req() },
        None,
    )
    .unwrap();
    assert!(matches!(second.next_page, Some(PageRef::Numeric(3))));
    assert_eq!(second.total, 3);
}

#[test]
fn invalid_seek_parameter() {
    let catalog: Vec<CatalogItem> = vec![];
    let scores = no_scores(0);
    let response = search(
        &catalog,
        &scores,
        &SearchRequest { seek: Some(b("broken")), ..req() },
        None,
    );
    assert!(matches!(response, Err(SearchError::BadSeekToken)));
}

#[test]
fn pagination_parameters_only_accept_integers() {
    let catalog = links_catalog();
    let scores = no_scores(3);

    let bad = "100\"\u{ff0c}exception";
    let response = search(
        &catalog,
        &scores,
        &SearchRequest { page: Some(b("1")), per_page: Some(b(bad)), ..req() },
        None,
    );
    // the error names the offending literal
    match response {
        Err(SearchError::InvalidPaginationParameter(v)) => assert_eq!(v, b(bad)),
        other => panic!("expected a pagination error, got {:?}", other),
    }

    let response = search(
        &catalog,
        &scores,
        &SearchRequest { page: Some(b(bad)), per_page: Some(b("1")), ..req() },
        None,
    );
    match response {
        Err(SearchError::InvalidPaginationParameter(v)) => assert_eq!(v, b(bad)),
        other => panic!("expected a pagination error, got {:?}", other),
    }
}

#[test]
fn pagination_parameter_ceilings() {
    let catalog = links_catalog();
    let scores = no_scores(3);
    for bad in ["0", "201"] {
        let response = search(
            &catalog,
            &scores,
            &SearchRequest { page: Some(b(bad)), ..req() },
            None,
        );
        match response {
            Err(SearchError::InvalidPaginationParameter(v)) => assert_eq!(v, b(bad)),
            other => panic!("expected a pagination error, got {:?}", other),
        }
    }
    for bad in ["0", "101"] {
        let response = search(
            &catalog,
            &scores,
            &SearchRequest { per_page: Some(b(bad)), ..req() },
            None,
        );
        match response {
            Err(SearchError::InvalidPaginationParameter(v)) => assert_eq!(v, b(bad)),
            other => panic!("expected a pagination error, got {:?}", other),
        }
    }
    // a pagination error's message carries the literal
    let e = SearchError::InvalidPaginationParameter(b("07x"));
    let detail = e.detail();
    assert_eq!(detail, b("invalid pagination parameter: 07x"));
}

#[test]
fn error_details_name_their_cause() {
    assert_eq!(
        SearchError::Validation(b("letter value must contain 1 character")).detail(),
        b("letter value must contain 1 character")
    );
    assert_eq!(SearchError::BadSeekToken.detail(), b("invalid seek parameter"));
    assert_eq!(
        SearchError::Unauthenticated.detail(),
        b("must be logged in to perform that action")
    );
    assert_eq!(
        SearchError::StorageUnavailable.detail(),
        b("the storage backend is unavailable")
    );
}

#[test]
fn default_page_size_is_ten() {
    let catalog: Vec<CatalogItem> = (1..=12).map(|i| item(i, &format!("crate_{:02}", i))).collect();
    let scores = no_scores(12);
    let first = search(&catalog, &scores, &req(), None).unwrap();
    assert_eq!(first.total, 12);
    assert_eq!(first.rows.len(), 10);
    let token = match first.next_page {
        Some(PageRef::Token(t)) => t,
        other => panic!("expected a continuation token, got {:?}", other),
    };
    let second = search(
        &catalog,
        &scores,
        &SearchRequest { seek: Some(token), ..req() },
        None,
    )
    .unwrap();
    assert_eq!(second.total, 12);
    assert_eq!(second.rows.len(), 2);
    assert!(second.next_page.is_none());
    assert_eq!(second.rows[0].name, b("crate_11"));
    assert_eq!(second.rows[1].name, b("crate_12"));
}
