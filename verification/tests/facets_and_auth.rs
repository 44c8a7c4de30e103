use catalog_search::auth::{still_locked, AuthenticatedUser, AuthError, User};
use catalog_search::catalog::{CatalogItem, OwnerKind, OwnerRef, TextScore, VersionInfo};
use catalog_search::engine::search;
use catalog_search::errors::SearchError;
use catalog_search::params::SearchRequest;
use catalog_search::team::{membership_confirms_user, NewTeam, Team};

fn b(s: &str) -> Vec<u8> {
    s.as_bytes().to_vec()
}

fn item(id: i64, name: &str) -> CatalogItem {
    CatalogItem {
        id,
        name: b(name),
        created_at: 0,
        updated_at: 0,
        downloads: 0,
        recent_downloads: None,
        versions: vec![VersionInfo { major: 1, minor: 0, patch: 0, prerelease: false, yanked: false }],
        keywords: vec![],
        categories: vec![],
        owners: vec![OwnerRef { owner_id: 1, kind: OwnerKind::User, deleted: false }],
        followers: vec![],
    }
}

fn req() -> SearchRequest {
    SearchRequest {
        q: None,
        sort: None,
        category: None,
        all_keywords: None,
        keyword: None,
        letter: None,
        user_id: None,
        team_id: None,
        following: false,
        ids: None,
        include_yanked: false,
        page: None,
        per_page: None,
        seek: None,
    }
}

fn no_scores(n: usize) -> Vec<TextScore> {
    vec![TextScore { matched: false, rank: 0 }; n]
}

#[test]
fn empty_letter_is_a_validation_error() {
    let catalog = vec![item(1, "foo")];
    let response = search(
        &catalog,
        &no_scores(1),
        &SearchRequest { letter: Some(b("")), ..req() },
        None,
    );
    match response {
        Err(SearchError::Validation(m)) => {
            assert_eq!(m, b("letter value must contain 1 character"));
        }
        other => panic!("expected a validation error, got {:?}", other),
    }
}

#[test]
fn letter_matches_case_insensitively() {
    let catalog = vec![item(1, "Fast"), item(2, "slow")];
    for l in ["F", "f"] {
        let page = search(
            &catalog,
            &no_scores(2),
            &SearchRequest { letter: Some(b(l)), ..req() },
            None,
        )
        .unwrap();
        assert_eq!(page.total, 1);
        assert_eq!(page.rows[0].name, b("Fast"));
    }
}

#[test]
fn following_requires_identity() {
    let mut krate = item(1, "followed");
    krate.followers = vec![77];
    let catalog = vec![krate];

    let response = search(
        &catalog,
        &no_scores(1),
        &SearchRequest { following: true, ..req() },
        None,
    );
    assert!(matches!(response, Err(SearchError::Unauthenticated)));

    let page = search(
        &catalog,
        &no_scores(1),
        &SearchRequest { following: true, ..req() },
        Some(77),
    )
    .unwrap();
    assert_eq!(page.total, 1);

    let page = search(
        &catalog,
        &no_scores(1),
        &SearchRequest { following: true, ..req() },
        Some(78),
    )
    .unwrap();
    assert_eq!(page.total, 0);
}

#[test]
fn team_facet_matches_live_team_owners() {
    let mut krate = item(1, "team_owned");
    krate.owners = vec![OwnerRef { owner_id: 9, kind: OwnerKind::Team, deleted: false }];
    let catalog = vec![krate];
    let page = search(
        &catalog,
        &no_scores(1),
        &SearchRequest { team_id: Some(9), ..req() },
        None,
    )
    .unwrap();
    assert_eq!(page.total, 1);
    let page = search(
        &catalog,
        &no_scores(1),
        &SearchRequest { user_id: Some(9), ..req() },
        None,
    )
    .unwrap();
    assert_eq!(page.total, 0);
}

#[test]
fn user_facet_with_no_owner_is_empty_not_an_error() {
    let catalog = vec![item(1, "foo"), item(2, "bar")];
    let page = search(
        &catalog,
        &no_scores(2),
        &SearchRequest { user_id: Some(4242), ..req() },
        None,
    )
    .unwrap();
    assert_eq!(page.total, 0);
    assert!(page.rows.is_empty());
}

#[test]
fn totals_agree_between_pagination_modes() {
    let mut with_kw = item(1, "alpha");
    with_kw.keywords = vec![b("net")];
    let mut plain = item(2, "beta");
    plain.keywords = vec![b("net")];
    let catalog = vec![with_kw, plain, item(3, "gamma")];
    let scores = no_scores(3);

    let base = SearchRequest { keyword: Some(b("net")), ..req() };
    let offset = search(
        &catalog,
        &scores,
        &SearchRequest {
            page: Some(b("1")),
            per_page: Some(b("1")),
            keyword: Some(b("net")),
            ..req()
        },
        None,
    )
    .unwrap();
    let seek = search(&catalog, &scores, &base, None).unwrap();
    assert_eq!(offset.total, 2);
    assert_eq!(seek.total, 2);
}

#[test]
fn explicit_page_wins_over_seek_token() {
    let catalog = vec![item(1, "one"), item(2, "two")];
    // a broken token is ignored entirely when an explicit page was
    // requested
    let page = search(
        &catalog,
        &no_scores(2),
        &SearchRequest { page: Some(b("1")), seek: Some(b("broken")), ..req() },
        None,
    )
    .unwrap();
    assert_eq!(page.total, 2);
}

#[test]
fn authenticated_user_exposes_its_identity() {
    let user = User { id: 17, login: b("carol"), account_lock_reason: None, account_lock_until: None };
    let auth = AuthenticatedUser::new(user, Some(3));
    assert_eq!(auth.user_id(), 17);
    assert_eq!(auth.api_token_id(), Some(3));
    let user = auth.user();
    assert_eq!(user.id, 17);
    assert_eq!(user.login, b("carol"));
}

#[test]
fn forbid_api_token_auth_refuses_token_identities() {
    let user = User { id: 1, login: b("a"), account_lock_reason: None, account_lock_until: None };
    let auth = AuthenticatedUser::new(user, None);
    let auth = auth.forbid_api_token_auth().unwrap();
    assert_eq!(auth.user_id(), 1);

    let user = User { id: 2, login: b("t"), account_lock_reason: None, account_lock_until: None };
    let auth = AuthenticatedUser::new(user, Some(5));
    assert!(matches!(auth.forbid_api_token_auth(), Err(AuthError::Forbidden)));
}

#[test]
fn account_locks_expire() {
    assert!(still_locked(None, 100));
    assert!(still_locked(Some(101), 100));
    assert!(!still_locked(Some(100), 100));
    assert!(!still_locked(Some(99), 100));
}

#[test]
fn team_membership_requires_an_active_record() {
    assert!(membership_confirms_user(Some(true)));
    assert!(!membership_confirms_user(Some(false)));
    assert!(!membership_confirms_user(None));

    let team = Team {
        id: 1,
        login: b("github:rust-lang:core"),
        github_id: 42,
        name: Some(b("Core")),
        avatar: None,
        org_id: 7,
    };
    assert_eq!(team.github_id, 42);
    let new_team = NewTeam {
        login: b("github:rust-lang:core"),
        github_id: 42,
        name: None,
        avatar: None,
        org_id: 7,
    };
    assert_eq!(new_team.org_id, 7);
}
