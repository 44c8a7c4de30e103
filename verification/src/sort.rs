//! The sort strategies: the recognized sort names, the default rules, and
//! the strategy each request resolves to.
use vstd::prelude::*;

use crate::text::bytes_eq;

verus! {

/// One of the total orderings the engine can serve. Each carries, beside
/// its primary fields, enough of a tie-break (ultimately the item id or
/// the unique name) to make the ordering strict and total.
#[derive(Clone, Copy, PartialEq, Eq, Structural, Debug)]
pub enum SortKey {
    /// Name ascending; names are unique.
    Name,
    /// Total downloads descending, id descending.
    Downloads,
    /// Recent downloads descending with items without recent activity
    /// last, id descending.
    RecentDownloads,
    /// Last update descending, id descending.
    RecentUpdates,
    /// Creation time descending, id descending.
    New,
    /// Exact-match flag descending, then name ascending; for text queries
    /// under a sort name that ignores relevance.
    Query,
    /// Exact-match flag descending, rank descending, then name ascending.
    Relevance,
}

/// The sort name `downloads`.
pub open spec fn sort_name_downloads() -> Seq<u8> {
    seq![100, 111, 119, 110, 108, 111, 97, 100, 115]
}

fn sort_name_downloads_bytes() -> (r: Vec<u8>)
    ensures
        r@ == sort_name_downloads(),
{
    let r: Vec<u8> = vec![100, 111, 119, 110, 108, 111, 97, 100, 115];
    proof {
        assert(r@ =~= sort_name_downloads());
    }
    r
}

/// The sort name `recent-downloads`.
pub open spec fn sort_name_recent_downloads() -> Seq<u8> {
    seq![114, 101, 99, 101, 110, 116, 45, 100, 111, 119, 110, 108, 111, 97, 100, 115]
}

fn sort_name_recent_downloads_bytes() -> (r: Vec<u8>)
    ensures
        r@ == sort_name_recent_downloads(),
{
    let r: Vec<u8> = vec![114, 101, 99, 101, 110, 116, 45, 100, 111, 119, 110, 108, 111, 97, 100, 115];
    proof {
        assert(r@ =~= sort_name_recent_downloads());
    }
    r
}

/// The sort name `recent-updates`.
pub open spec fn sort_name_recent_updates() -> Seq<u8> {
    seq![114, 101, 99, 101, 110, 116, 45, 117, 112, 100, 97, 116, 101, 115]
}

fn sort_name_recent_updates_bytes() -> (r: Vec<u8>)
    ensures
        r@ == sort_name_recent_updates(),
{
    let r: Vec<u8> = vec![114, 101, 99, 101, 110, 116, 45, 117, 112, 100, 97, 116, 101, 115];
    proof {
        assert(r@ =~= sort_name_recent_updates());
    }
    r
}

/// The sort name `new`.
pub open spec fn sort_name_new() -> Seq<u8> {
    seq![110, 101, 119]
}

fn sort_name_new_bytes() -> (r: Vec<u8>)
    ensures
        r@ == sort_name_new(),
{
    let r: Vec<u8> = vec![110, 101, 119];
    proof {
        assert(r@ =~= sort_name_new());
    }
    r
}

/// The sort name `relevance`.
pub open spec fn sort_name_relevance() -> Seq<u8> {
    seq![114, 101, 108, 101, 118, 97, 110, 99, 101]
}

fn sort_name_relevance_bytes() -> (r: Vec<u8>)
    ensures
        r@ == sort_name_relevance(),
{
    let r: Vec<u8> = vec![114, 101, 108, 101, 118, 97, 110, 99, 101];
    proof {
        assert(r@ =~= sort_name_relevance());
    }
    r
}

/// The view of an optional byte string.
pub open spec fn view_opt_bytes(o: Option<Vec<u8>>) -> Option<Seq<u8>> {
    match o {
        Option::Some(v) => Option::Some(v@),
        Option::None => Option::None,
    }
}

/// Which strategy a request gets: the four explicit sort names always win;
/// otherwise a text query defaults to `Relevance` (or falls to `Query`
/// under any other sort name), and without a query the order is `Name`.
pub open spec fn spec_resolve_sort(sort: Option<Seq<u8>>, has_query: bool) -> SortKey {
    if sort == Option::Some(sort_name_downloads()) {
        SortKey::Downloads
    } else if sort == Option::Some(sort_name_recent_downloads()) {
        SortKey::RecentDownloads
    } else if sort == Option::Some(sort_name_recent_updates()) {
        SortKey::RecentUpdates
    } else if sort == Option::Some(sort_name_new()) {
        SortKey::New
    } else if has_query && (sort is None || sort == Option::Some(sort_name_relevance())) {
        SortKey::Relevance
    } else if has_query {
        SortKey::Query
    } else {
        SortKey::Name
    }
}

/// Resolves the requested sort name to the strategy in effect.
pub fn resolve_sort(sort: &Option<Vec<u8>>, has_query: bool) -> (r: SortKey)
    ensures
        r == spec_resolve_sort(view_opt_bytes(*sort), has_query),
{
    match sort {
        Some(s) => {
            if bytes_eq(s, &sort_name_downloads_bytes()) {
                SortKey::Downloads
            } else if bytes_eq(s, &sort_name_recent_downloads_bytes()) {
                SortKey::RecentDownloads
            } else if bytes_eq(s, &sort_name_recent_updates_bytes()) {
                SortKey::RecentUpdates
            } else if bytes_eq(s, &sort_name_new_bytes()) {
                SortKey::New
            } else if has_query {
                if bytes_eq(s, &sort_name_relevance_bytes()) {
                    SortKey::Relevance
                } else {
                    SortKey::Query
                }
            } else {
                SortKey::Name
            }
        },
        None => {
            if has_query {
                SortKey::Relevance
            } else {
                SortKey::Name
            }
        },
    }
}

} // verus!
