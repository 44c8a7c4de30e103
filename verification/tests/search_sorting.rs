use catalog_search::catalog::{CatalogItem, OwnerKind, OwnerRef, TextScore, VersionInfo};
use catalog_search::engine::{search, PageRef, PageResult};
use catalog_search::params::SearchRequest;
use catalog_search::seek::{decode, SeekPayload};
use catalog_search::sort::SortKey;

const NOW: i64 = 1_700_000_000_000_000;
const DAY: i64 = 86_400_000_000;
const WEEK: i64 = 7 * DAY;

fn b(s: &str) -> Vec<u8> {
    s.as_bytes().to_vec()
}

fn version(major: u64, minor: u64, patch: u64, prerelease: bool, yanked: bool) -> VersionInfo {
    VersionInfo { major, minor, patch, prerelease, yanked }
}

fn item(id: i64, name: &str) -> CatalogItem {
    CatalogItem {
        id,
        name: b(name),
        created_at: 0,
        updated_at: 0,
        downloads: 0,
        recent_downloads: None,
        versions: vec![version(1, 0, 0, false, false)],
        keywords: vec![],
        categories: vec![],
        owners: vec![OwnerRef { owner_id: 1, kind: OwnerKind::User, deleted: false }],
        followers: vec![],
    }
}

fn req() -> SearchRequest {
    SearchRequest {
        q: None,
        sort: None,
        category: None,
        all_keywords: None,
        keyword: None,
        letter: None,
        user_id: None,
        team_id: None,
        following: false,
        ids: None,
        include_yanked: false,
        page: None,
        per_page: None,
        seek: None,
    }
}

fn clone_req(r: &SearchRequest) -> SearchRequest {
    SearchRequest {
        q: r.q.clone(),
        sort: r.sort.clone(),
        category: r.category.clone(),
        all_keywords: r.all_keywords.clone(),
        keyword: r.keyword.clone(),
        letter: r.letter.clone(),
        user_id: r.user_id,
        team_id: r.team_id,
        following: r.following,
        ids: r.ids.clone(),
        include_yanked: r.include_yanked,
        page: r.page.clone(),
        per_page: r.per_page.clone(),
        seek: r.seek.clone(),
    }
}

fn no_scores(n: usize) -> Vec<TextScore> {
    vec![TextScore { matched: false, rank: 0 }; n]
}

fn search_both(
    catalog: &Vec<CatalogItem>,
    scores: &Vec<TextScore>,
    base: SearchRequest,
) -> [PageResult; 2] {
    let offset_req = SearchRequest { page: Some(b("1")), ..clone_req(&base) };
    let seek_req = base;
    let offset = search(catalog, scores, &offset_req, None).unwrap();
    let seek = search(catalog, scores, &seek_req, None).unwrap();
    assert_eq!(offset.total, seek.total);
    assert_eq!(offset.rows.len(), seek.rows.len());
    for (x, y) in offset.rows.iter().zip(seek.rows.iter()) {
        assert_eq!(x.name, y.name);
    }
    [offset, seek]
}

/// Walks seek pages of width one until `next_page` is absent; returns
/// the responses and the number of calls.
fn page_with_seek(
    catalog: &Vec<CatalogItem>,
    scores: &Vec<TextScore>,
    base: SearchRequest,
) -> (Vec<PageResult>, usize) {
    let mut current = SearchRequest { per_page: Some(b("1")), ..base };
    let mut results = Vec::new();
    let mut calls = 0usize;
    loop {
        let resp = search(catalog, scores, &current, None).unwrap();
        calls += 1;
        assert!(calls <= 200, "potential infinite loop detected");
        assert!(resp.prev_page.is_none());
        let token = match &resp.next_page {
            Some(PageRef::Token(t)) => {
                assert_eq!(resp.rows.len(), 1);
                Some(t.clone())
            }
            Some(PageRef::Numeric(_)) => panic!("seek walk produced a numeric link"),
            None => {
                assert!(resp.rows.is_empty());
                None
            }
        };
        results.push(resp);
        match token {
            Some(t) => current.seek = Some(t),
            None => break,
        }
    }
    (results, calls)
}

fn sorting_catalog() -> Vec<CatalogItem> {
    let mut krate1 = item(1, "foo_sort");
    krate1.downloads = 50;
    krate1.recent_downloads = Some(50);
    krate1.created_at = NOW - 4 * WEEK;
    krate1.updated_at = NOW - 3 * WEEK;

    let mut krate2 = item(2, "bar_sort");
    krate2.downloads = 3333;
    krate2.recent_downloads = Some(0);
    krate2.created_at = NOW - WEEK;
    krate2.updated_at = NOW - 5 * DAY;

    let mut krate3 = item(3, "baz_sort");
    krate3.downloads = 100_000;
    krate3.recent_downloads = Some(50);
    krate3.created_at = NOW - 3 * WEEK;
    krate3.updated_at = NOW - 5 * DAY;

    let mut krate4 = item(4, "other_sort");
    krate4.downloads = 100_000;
    krate4.created_at = NOW - 3 * WEEK;
    krate4.updated_at = NOW;

    vec![krate1, krate2, krate3, krate4]
}

fn names(page: &PageResult) -> Vec<Vec<u8>> {
    page.rows.iter().map(|r| r.name.clone()).collect()
}

#[test]
fn index_sorting() {
    let catalog = sorting_catalog();
    let with_sort = |s: &str| SearchRequest { sort: Some(b(s)), ..req() };

    // Sort by downloads
    for json in search_both(&catalog, &no_scores(4), with_sort("downloads")) {
        assert_eq!(json.total, 4);
        assert_eq!(
            names(&json),
            vec![b("other_sort"), b("baz_sort"), b("bar_sort"), b("foo_sort")]
        );
    }
    let (resp, calls) = page_with_seek(&catalog, &no_scores(4), with_sort("downloads"));
    assert_eq!(resp[0].rows[0].name, b("other_sort"));
    assert_eq!(resp[1].rows[0].name, b("baz_sort"));
    assert_eq!(resp[2].rows[0].name, b("bar_sort"));
    assert_eq!(resp[3].rows[0].name, b("foo_sort"));
    assert_eq!(resp[3].total, 4);
    assert_eq!(calls, 5);

    // Sort by recent-downloads
    for json in search_both(&catalog, &no_scores(4), with_sort("recent-downloads")) {
        assert_eq!(json.total, 4);
        assert_eq!(
            names(&json),
            vec![b("baz_sort"), b("foo_sort"), b("bar_sort"), b("other_sort")]
        );
    }
    let (resp, calls) = page_with_seek(&catalog, &no_scores(4), with_sort("recent-downloads"));
    assert_eq!(resp[0].rows[0].name, b("baz_sort"));
    assert_eq!(resp[1].rows[0].name, b("foo_sort"));
    assert_eq!(resp[2].rows[0].name, b("bar_sort"));
    assert_eq!(resp[3].rows[0].name, b("other_sort"));
    assert_eq!(resp[3].total, 4);
    assert_eq!(calls, 5);

    // Sort by recent-updates
    for json in search_both(&catalog, &no_scores(4), with_sort("recent-updates")) {
        assert_eq!(json.total, 4);
        assert_eq!(
            names(&json),
            vec![b("other_sort"), b("baz_sort"), b("bar_sort"), b("foo_sort")]
        );
    }
    let (resp, calls) = page_with_seek(&catalog, &no_scores(4), with_sort("recent-updates"));
    assert_eq!(resp[0].rows[0].name, b("other_sort"));
    assert_eq!(resp[1].rows[0].name, b("baz_sort"));
    assert_eq!(resp[2].rows[0].name, b("bar_sort"));
    assert_eq!(resp[3].rows[0].name, b("foo_sort"));
    assert_eq!(resp[3].total, 4);
    assert_eq!(calls, 5);

    // Sort by new
    for json in search_both(&catalog, &no_scores(4), with_sort("new")) {
        assert_eq!(json.total, 4);
        assert_eq!(
            names(&json),
            vec![b("bar_sort"), b("other_sort"), b("baz_sort"), b("foo_sort")]
        );
    }
    let (resp, calls) = page_with_seek(&catalog, &no_scores(4), with_sort("new"));
    assert_eq!(resp[0].rows[0].name, b("bar_sort"));
    assert_eq!(resp[1].rows[0].name, b("other_sort"));
    assert_eq!(resp[2].rows[0].name, b("baz_sort"));
    assert_eq!(resp[3].rows[0].name, b("foo_sort"));
    assert_eq!(resp[3].total, 4);
    assert_eq!(calls, 5);

    // Sort by alpha with query: descriptions cross-reference the names
    let bar_scores = vec![
        TextScore { matched: true, rank: 10 },
        TextScore { matched: true, rank: 5 },
        TextScore { matched: true, rank: 20 },
        TextScore { matched: false, rank: 0 },
    ];
    let alpha_bar = SearchRequest { sort: Some(b("alpha")), q: Some(b("bar_sort")), ..req() };
    let (resp, calls) = page_with_seek(&catalog, &bar_scores, clone_req(&alpha_bar));
    assert_eq!(calls, resp[0].total + 1);
    // decoded continuations keep the (exact match, name) ordering
    let mut decoded_exact = Vec::new();
    for r in &resp {
        if let Some(PageRef::Token(t)) = &r.next_page {
            match decode(t, SortKey::Query).unwrap() {
                SeekPayload::Query { exact, .. } => decoded_exact.push(exact),
                other => panic!("unexpected payload {:?}", other),
            }
        }
    }
    let mut sorted = decoded_exact.clone();
    sorted.sort_by_key(|e| std::cmp::Reverse(*e));
    assert_eq!(sorted, decoded_exact);
    for json in search_both(&catalog, &bar_scores, clone_req(&alpha_bar)) {
        assert_eq!(json.total, resp[0].total);
        for (c, r) in json.rows.iter().zip(&resp) {
            assert_eq!(c.name, r.rows[0].name);
        }
    }
    let sort_scores = vec![
        TextScore { matched: true, rank: 5 },
        TextScore { matched: true, rank: 8 },
        TextScore { matched: true, rank: 12 },
        TextScore { matched: true, rank: 3 },
    ];
    let alpha_sort = SearchRequest { sort: Some(b("alpha")), q: Some(b("sort")), ..req() };
    let (resp, calls) = page_with_seek(&catalog, &sort_scores, clone_req(&alpha_sort));
    assert_eq!(calls, resp[0].total + 1);
    let mut decoded_exact = Vec::new();
    for r in &resp {
        if let Some(PageRef::Token(t)) = &r.next_page {
            match decode(t, SortKey::Query).unwrap() {
                SeekPayload::Query { exact, .. } => decoded_exact.push(exact),
                other => panic!("unexpected payload {:?}", other),
            }
        }
    }
    let mut sorted = decoded_exact.clone();
    sorted.sort_by_key(|e| std::cmp::Reverse(*e));
    assert_eq!(sorted, decoded_exact);
    for json in search_both(&catalog, &sort_scores, clone_req(&alpha_sort)) {
        assert_eq!(json.total, resp[0].total);
        for (c, r) in json.rows.iter().zip(&resp) {
            assert_eq!(c.name, r.rows[0].name);
        }
    }

    // Sort by relevance
    let foo_scores = vec![
        TextScore { matched: true, rank: 10 },
        TextScore { matched: true, rank: 20 },
        TextScore { matched: true, rank: 30 },
        TextScore { matched: false, rank: 0 },
    ];
    let rel_foo = SearchRequest { q: Some(b("foo_sort")), ..req() };
    let (resp, calls) = page_with_seek(&catalog, &foo_scores, clone_req(&rel_foo));
    assert_eq!(calls, resp[0].total + 1);
    // decoded continuations keep the (exact match, rank) ordering
    let mut decoded = Vec::new();
    for r in &resp {
        if let Some(PageRef::Token(t)) = &r.next_page {
            match decode(t, SortKey::Relevance).unwrap() {
                SeekPayload::Relevance { exact, rank, .. } => decoded.push((exact, rank)),
                other => panic!("unexpected payload {:?}", other),
            }
        }
    }
    let mut sorted = decoded.clone();
    sorted.sort_by_key(|(e, r)| (std::cmp::Reverse(*e), std::cmp::Reverse(*r)));
    assert_eq!(sorted, decoded);
    for json in search_both(&catalog, &foo_scores, clone_req(&rel_foo)) {
        assert_eq!(json.total, resp[0].total);
        for (c, r) in json.rows.iter().zip(&resp) {
            assert_eq!(c.name, r.rows[0].name);
        }
    }
    let rel_sort = SearchRequest { q: Some(b("sort")), ..req() };
    let (resp, calls) = page_with_seek(&catalog, &sort_scores, clone_req(&rel_sort));
    assert_eq!(calls, resp[0].total + 1);
    let mut decoded = Vec::new();
    for r in &resp {
        if let Some(PageRef::Token(t)) = &r.next_page {
            match decode(t, SortKey::Relevance).unwrap() {
                SeekPayload::Relevance { exact, rank, .. } => decoded.push((exact, rank)),
                other => panic!("unexpected payload {:?}", other),
            }
        }
    }
    let mut sorted = decoded.clone();
    sorted.sort_by_key(|(e, r)| (std::cmp::Reverse(*e), std::cmp::Reverse(*r)));
    assert_eq!(sorted, decoded);
    for json in search_both(&catalog, &sort_scores, clone_req(&rel_sort)) {
        assert_eq!(json.total, resp[0].total);
        for (c, r) in json.rows.iter().zip(&resp) {
            assert_eq!(c.name, r.rows[0].name);
        }
    }

    // items without recent downloads sort last, never first
    for json in search_both(&catalog, &no_scores(4), with_sort("recent-downloads")) {
        assert_eq!(json.total, 4);
        assert_eq!(
            names(&json),
            vec![b("baz_sort"), b("foo_sort"), b("bar_sort"), b("other_sort")]
        );
    }
}

#[test]
fn ignore_exact_match_on_queries_with_sort() {
    let mut catalog = sorting_catalog();
    catalog[2].recent_downloads = Some(10);
    catalog[2].created_at = NOW - 2 * WEEK;
    catalog[2].updated_at = NOW - 10_000_000;
    catalog[3].downloads = 999_999;

    // descriptions cross-reference all of foo/bar/baz; `const` appears in
    // every description
    let cross = vec![
        TextScore { matched: true, rank: 10 },
        TextScore { matched: true, rank: 20 },
        TextScore { matched: true, rank: 30 },
        TextScore { matched: false, rank: 0 },
    ];
    let all = vec![TextScore { matched: true, rank: 1 }; 4];

    let q_sort = |q: &str, s: &str| SearchRequest {
        q: Some(b(q)),
        sort: Some(b(s)),
        ..req()
    };

    for json in search_both(&catalog, &cross, q_sort("foo_sort", "downloads")) {
        assert_eq!(json.total, 3);
        assert_eq!(names(&json), vec![b("baz_sort"), b("bar_sort"), b("foo_sort")]);
    }
    for json in search_both(&catalog, &cross, q_sort("bar_sort", "downloads")) {
        assert_eq!(json.total, 3);
        assert_eq!(names(&json), vec![b("baz_sort"), b("bar_sort"), b("foo_sort")]);
    }
    for json in search_both(&catalog, &cross, q_sort("baz_sort", "downloads")) {
        assert_eq!(json.total, 3);
        assert_eq!(names(&json), vec![b("baz_sort"), b("bar_sort"), b("foo_sort")]);
    }
    for json in search_both(&catalog, &all, q_sort("const", "downloads")) {
        assert_eq!(json.total, 4);
        assert_eq!(
            names(&json),
            vec![b("other_sort"), b("baz_sort"), b("bar_sort"), b("foo_sort")]
        );
    }

    for json in search_both(&catalog, &cross, q_sort("bar_sort", "recent-downloads")) {
        assert_eq!(json.total, 3);
        assert_eq!(names(&json), vec![b("foo_sort"), b("baz_sort"), b("bar_sort")]);
    }

    for json in search_both(&catalog, &no_scores(4), SearchRequest {
        sort: Some(b("recent-downloads")),
        ..req()
    }) {
        assert_eq!(json.total, 4);
        assert_eq!(
            names(&json),
            vec![b("foo_sort"), b("baz_sort"), b("bar_sort"), b("other_sort")]
        );
    }

    for json in search_both(&catalog, &cross, q_sort("bar_sort", "recent-updates")) {
        assert_eq!(json.total, 3);
        assert_eq!(names(&json), vec![b("baz_sort"), b("bar_sort"), b("foo_sort")]);
    }

    for json in search_both(&catalog, &cross, q_sort("bar_sort", "new")) {
        assert_eq!(json.total, 3);
        assert_eq!(names(&json), vec![b("bar_sort"), b("baz_sort"), b("foo_sort")]);
    }
}

#[test]
fn index_include_yanked() {
    let mut unyanked = item(1, "unyanked");
    unyanked.versions = vec![version(1, 0, 0, false, false), version(2, 0, 0, false, false)];
    let mut newest_yanked = item(2, "newest_yanked");
    newest_yanked.versions = vec![version(1, 0, 0, false, false), version(2, 0, 0, false, true)];
    let mut oldest_yanked = item(3, "oldest_yanked");
    oldest_yanked.versions = vec![version(1, 0, 0, false, true), version(2, 0, 0, false, false)];
    let mut all_yanked = item(4, "all_yanked");
    all_yanked.versions = vec![version(1, 0, 0, false, true), version(2, 0, 0, false, true)];
    let catalog = vec![unyanked, newest_yanked, oldest_yanked, all_yanked];

    for json in search_both(&catalog, &no_scores(4), SearchRequest {
        include_yanked: true,
        sort: Some(b("alphabetical")),
        ..req()
    }) {
        assert_eq!(json.total, 4);
        assert_eq!(
            names(&json),
            vec![b("all_yanked"), b("newest_yanked"), b("oldest_yanked"), b("unyanked")]
        );
    }

    for json in search_both(&catalog, &no_scores(4), SearchRequest {
        include_yanked: false,
        sort: Some(b("alphabetical")),
        ..req()
    }) {
        assert_eq!(json.total, 3);
        assert_eq!(
            names(&json),
            vec![b("newest_yanked"), b("oldest_yanked"), b("unyanked")]
        );
    }
}

#[test]
fn yanked_versions_are_not_considered_for_max_version() {
    let mut krate = item(1, "foo_yanked_version");
    krate.versions = vec![version(1, 0, 0, false, false), version(1, 1, 0, false, true)];
    let catalog = vec![krate];

    for json in search_both(&catalog, &no_scores(1), SearchRequest {
        q: Some(b("foo")),
        ..req()
    }) {
        assert_eq!(json.total, 1);
        assert_eq!(json.rows[0].max_version, Some(version(1, 0, 0, false, false)));
    }
}

#[test]
fn max_stable_version() {
    let mut krate = item(1, "foo");
    krate.versions = vec![
        version(0, 3, 0, false, false),
        version(1, 0, 0, false, false),
        version(1, 1, 0, false, true),
        version(2, 0, 0, true, false),
        version(0, 3, 1, false, false),
    ];
    let catalog = vec![krate];

    for json in search_both(&catalog, &no_scores(1), SearchRequest {
        q: Some(b("foo")),
        ..req()
    }) {
        assert_eq!(json.total, 1);
        assert_eq!(json.rows[0].max_stable_version, Some(version(1, 0, 0, false, false)));
        assert_eq!(json.rows[0].max_version, Some(version(2, 0, 0, true, false)));
    }
}

#[test]
fn test_recent_download_count() {
    let mut green = item(1, "green_ball");
    green.downloads = 10;
    green.recent_downloads = Some(0);
    let mut potato = item(2, "sweet_potato_snack");
    potato.downloads = 5;
    potato.recent_downloads = Some(2);
    let catalog = vec![green, potato];

    for json in search_both(&catalog, &no_scores(2), SearchRequest {
        sort: Some(b("recent-downloads")),
        ..req()
    }) {
        assert_eq!(json.total, 2);
        assert_eq!(json.rows[0].name, b("sweet_potato_snack"));
        assert_eq!(json.rows[1].name, b("green_ball"));
        assert_eq!(json.rows[0].recent_downloads, Some(2));
        assert_eq!(json.rows[0].downloads, 5);
        assert_eq!(json.rows[1].recent_downloads, Some(0));
        assert_eq!(json.rows[1].downloads, 10);
    }
}

#[test]
fn test_zero_downloads() {
    let mut green = item(1, "green_ball");
    green.downloads = 0;
    green.recent_downloads = Some(0);
    let catalog = vec![green];

    for json in search_both(&catalog, &no_scores(1), SearchRequest {
        sort: Some(b("recent-downloads")),
        ..req()
    }) {
        assert_eq!(json.total, 1);
        assert_eq!(json.rows[0].name, b("green_ball"));
        assert_eq!(json.rows[0].recent_downloads, Some(0));
        assert_eq!(json.rows[0].downloads, 0);
    }
}

#[test]
fn test_default_sort_recent() {
    let mut green = item(1, "green_ball");
    green.downloads = 10;
    green.recent_downloads = Some(10);
    green.keywords = vec![b("dog")];
    green.categories = vec![b("animal")];
    let mut potato = item(2, "sweet_potato_snack");
    potato.downloads = 20;
    potato.recent_downloads = Some(0);
    potato.keywords = vec![b("dog")];
    potato.categories = vec![b("animal")];
    let catalog = vec![green, potato];

    for json in search_both(&catalog, &no_scores(2), SearchRequest {
        keyword: Some(b("dog")),
        ..req()
    }) {
        assert_eq!(json.total, 2);
        assert_eq!(json.rows[0].name, b("green_ball"));
        assert_eq!(json.rows[1].name, b("sweet_potato_snack"));
        assert_eq!(json.rows[0].recent_downloads, Some(10));
        assert_eq!(json.rows[0].downloads, 10);
        assert_eq!(json.rows[1].recent_downloads, Some(0));
        assert_eq!(json.rows[1].downloads, 20);
    }

    for json in search_both(&catalog, &no_scores(2), SearchRequest {
        category: Some(b("animal")),
        ..req()
    }) {
        assert_eq!(json.total, 2);
        assert_eq!(json.rows[0].name, b("green_ball"));
        assert_eq!(json.rows[1].name, b("sweet_potato_snack"));
        assert_eq!(json.rows[0].recent_downloads, Some(10));
        assert_eq!(json.rows[0].downloads, 10);
        assert_eq!(json.rows[1].recent_downloads, Some(0));
        assert_eq!(json.rows[1].downloads, 20);
    }
}
