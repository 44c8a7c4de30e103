//! The pagination orchestrator and result assembler: the one query
//! operation over a catalog snapshot, in offset or seek mode, with the
//! page descriptors that keep `total`, ordering and continuation mutually
//! consistent.
use vstd::prelude::*;

use crate::catalog::{
    CatalogItem, TextScore, VersionInfo, catalog_wf, spec_name_of_id, spec_top_version,
    find_by_id, top_version,
};
use crate::errors::{SearchError, letter_msg, letter_msg_bytes};
use crate::order::{row_order, lemma_row_order_total};
use crate::pagination::{
    DEFAULT_PER_PAGE, MAX_PAGE, MAX_PER_PAGE, check_page_param, spec_page_param,
};
use crate::params::{
    SearchRequest, FacetKind, facet_of, item_matches, exact_match, spec_exact_match, spec_facet,
    spec_has_query, spec_matches,
};
use crate::seek::{SeekPayload, spec_decode, spec_encode, spec_to_payload, decode, encode, to_payload};
use crate::sort::{SortKey, resolve_sort, spec_resolve_sort, view_opt_bytes};
use crate::text::{lex_lt, copy_bytes};

verus! {

// ---------------------------------------------------------------------
// The ordered result set
// ---------------------------------------------------------------------
/// The catalog indices whose items satisfy the composed predicate, in
/// catalog order.
pub open spec fn spec_matching(
    cat: Seq<CatalogItem>,
    sc: Seq<TextScore>,
    req: SearchRequest,
    ident: Option<i64>,
) -> Seq<usize> {
    Seq::new(cat.len(), |i: int| i as usize).filter(
        |t: usize| spec_matches(req, ident, cat[t as int], sc[t as int]),
    )
}

/// The matching indices, sorted by the ordering in effect: the result set
/// every page is a slice of.
pub open spec fn spec_result_order(
    cat: Seq<CatalogItem>,
    sc: Seq<TextScore>,
    req: SearchRequest,
    ident: Option<i64>,
    k: SortKey,
) -> Seq<usize> {
    spec_matching(cat, sc, req, ident).sort_by(row_order(cat, sc, req, k))
}

// ---------------------------------------------------------------------
// The strictly-after condition of a continuation
// ---------------------------------------------------------------------
/// The id the payload resumes from.
pub open spec fn spec_payload_id(p: SeekPayload) -> i64 {
    match p {
        SeekPayload::Name { id } => id,
        SeekPayload::New { id, .. } => id,
        SeekPayload::RecentUpdates { id, .. } => id,
        SeekPayload::RecentDownloads { id, .. } => id,
        SeekPayload::Downloads { id, .. } => id,
        SeekPayload::Query { id, .. } => id,
        SeekPayload::Relevance { id, .. } => id,
    }
}

/// Row `i` lies strictly after the resume tuple `p` in the ordering `p`
/// belongs to: the composite comparison with the tie-break direction of
/// each resume field. Where the tuple resumes by name, the name is looked
/// up by id; a continuation from an id that has left the catalog yields
/// no name, and the name branch then holds of no row.
pub open spec fn spec_after(
    cat: Seq<CatalogItem>,
    sc: Seq<TextScore>,
    req: SearchRequest,
    p: SeekPayload,
    i: int,
) -> bool {
    match p {
        SeekPayload::Name { id } => match spec_name_of_id(cat, id) {
            Option::Some(nm) => lex_lt(nm, cat[i].name@),
            Option::None => false,
        },
        SeekPayload::New { created_at, id } => (cat[i].created_at == created_at && cat[i].id < id)
            || cat[i].created_at < created_at,
        SeekPayload::RecentUpdates { updated_at, id } => (cat[i].updated_at == updated_at
            && cat[i].id < id) || cat[i].updated_at < updated_at,
        SeekPayload::RecentDownloads { recent_downloads, id } => match recent_downloads {
            Option::Some(dl) => (cat[i].recent_downloads == Option::Some(dl) && cat[i].id < id)
                || (match cat[i].recent_downloads {
                Option::Some(d) => d < dl,
                Option::None => true,
            }),
            Option::None => cat[i].recent_downloads is None && cat[i].id < id,
        },
        SeekPayload::Downloads { downloads, id } => (cat[i].downloads == downloads && cat[i].id
            < id) || cat[i].downloads < downloads,
        SeekPayload::Query { exact, id } => {
            let e = spec_exact_match(req, cat[i]);
            (match spec_name_of_id(cat, id) {
                Option::Some(nm) => e == exact && lex_lt(nm, cat[i].name@),
                Option::None => false,
            }) || (!e && exact)
        },
        SeekPayload::Relevance { exact, rank, id } => {
            let e = spec_exact_match(req, cat[i]);
            (match spec_name_of_id(cat, id) {
                Option::Some(nm) => e == exact && sc[i].rank == rank && lex_lt(nm, cat[i].name@),
                Option::None => false,
            }) || (e == exact && sc[i].rank < rank) || (!e && exact)
        },
    }
}

/// The first position of `ord`, from `i` on, whose row lies strictly
/// after the resume tuple; `ord.len()` when none does.
pub open spec fn spec_seek_pos_from(
    cat: Seq<CatalogItem>,
    sc: Seq<TextScore>,
    req: SearchRequest,
    p: SeekPayload,
    ord: Seq<usize>,
    i: int,
) -> int
    decreases ord.len() - i,
{
    if i < 0 || i >= ord.len() {
        ord.len() as int
    } else if spec_after(cat, sc, req, p, ord[i] as int) {
        i
    } else {
        spec_seek_pos_from(cat, sc, req, p, ord, i + 1)
    }
}

/// Where a continuation resumes: the first position of the ordered result
/// set strictly after the resume tuple.
pub open spec fn spec_seek_pos(
    cat: Seq<CatalogItem>,
    sc: Seq<TextScore>,
    req: SearchRequest,
    p: SeekPayload,
    ord: Seq<usize>,
) -> int {
    spec_seek_pos_from(cat, sc, req, p, ord, 0)
}

// ---------------------------------------------------------------------
// Pages
// ---------------------------------------------------------------------
/// A link to a further page: a numeric page in offset mode, a
/// continuation token in seek mode.
#[derive(Debug)]
pub enum PageRef {
    Numeric(u32),
    Token(Vec<u8>),
}

/// One returned row: the item's identity and display fields, the derived
/// signals, and the version summaries.
#[derive(Debug)]
pub struct PageRow {
    /// Position of the item in the catalog handed to `search`.
    pub index: usize,
    pub id: i64,
    pub name: Vec<u8>,
    pub downloads: i64,
    pub recent_downloads: Option<i64>,
    /// False when the request carries no text query.
    pub exact_match: bool,
    /// Zero outside relevance mode.
    pub rank: i64,
    /// Highest non-yanked version.
    pub max_version: Option<VersionInfo>,
    /// Highest non-yanked, non-pre-release version.
    pub max_stable_version: Option<VersionInfo>,
}

/// An ordered page plus the total count of the filtered (never
/// seek-restricted) result set and the page links.
#[derive(Debug)]
pub struct PageResult {
    pub rows: Vec<PageRow>,
    pub total: usize,
    pub next_page: Option<PageRef>,
    pub prev_page: Option<PageRef>,
}

/// `row` faithfully renders the item at catalog position `idx`.
pub open spec fn spec_row_ok(
    cat: Seq<CatalogItem>,
    sc: Seq<TextScore>,
    req: SearchRequest,
    k: SortKey,
    idx: usize,
    row: PageRow,
) -> bool {
    &&& row.index == idx
    &&& row.id == cat[idx as int].id
    &&& row.name@ == cat[idx as int].name@
    &&& row.downloads == cat[idx as int].downloads
    &&& row.recent_downloads == cat[idx as int].recent_downloads
    &&& row.exact_match == spec_exact_match(req, cat[idx as int])
    &&& row.rank == spec_rank(sc, k, idx as int)
    &&& row.max_version == spec_top_version(cat[idx as int].versions@, false)
    &&& row.max_stable_version == spec_top_version(cat[idx as int].versions@, true)
}

/// The rank reported for a row: the oracle's rank in relevance mode, zero
/// otherwise.
pub open spec fn spec_rank(sc: Seq<TextScore>, k: SortKey, i: int) -> i64 {
    if k is Relevance {
        sc[i].rank
    } else {
        0
    }
}

// ---------------------------------------------------------------------
// The error conditions, in the order they are checked
// ---------------------------------------------------------------------
/// The letter facet is honored and its value is empty.
pub open spec fn err_letter(req: SearchRequest) -> bool {
    spec_facet(req) == FacetKind::Letter && req.letter.unwrap()@.len() == 0
}

/// The following facet is honored and no identity is available.
pub open spec fn err_following(req: SearchRequest, ident: Option<i64>) -> bool {
    spec_facet(req) == FacetKind::Following && ident is None
}

/// The `page` literal is not a positive integer within the ceiling.
pub open spec fn err_page(req: SearchRequest) -> bool {
    req.page matches Some(s) && spec_page_param(s@, MAX_PAGE) is None
}

/// The `per_page` literal is not a positive integer within the ceiling.
pub open spec fn err_per_page(req: SearchRequest) -> bool {
    req.per_page matches Some(s) && spec_page_param(s@, MAX_PER_PAGE) is None
}

/// A continuation token is present, no explicit page overrides it, and it
/// does not decode under the ordering in effect.
pub open spec fn err_seek(req: SearchRequest, k: SortKey) -> bool {
    req.page is None && (req.seek matches Some(s) && spec_decode(s@, k) is None)
}

/// Some input of the request is refused.
pub open spec fn spec_request_err(req: SearchRequest, ident: Option<i64>, k: SortKey) -> bool {
    err_letter(req) || err_following(req, ident) || err_page(req) || err_per_page(req)
        || err_seek(req, k)
}

/// The rows per page of a validated request.
pub open spec fn spec_per_page(req: SearchRequest) -> u32 {
    match req.per_page {
        Option::Some(s) => spec_page_param(s@, MAX_PER_PAGE).unwrap(),
        Option::None => DEFAULT_PER_PAGE,
    }
}

/// The ordering a request resolves to.
pub open spec fn spec_sort_key(req: SearchRequest) -> SortKey {
    spec_resolve_sort(view_opt_bytes(req.sort), spec_has_query(req))
}

} // verus!

verus! {

/// The catalog indices of the items the request matches, in catalog
/// order.
fn collect_matching(
    cat: &Vec<CatalogItem>,
    sc: &Vec<TextScore>,
    req: &SearchRequest,
    ident: Option<i64>,
) -> (r: Vec<usize>)
    requires
        sc@.len() == cat@.len(),
    ensures
        r@ == spec_matching(cat@, sc@, *req, ident),
        forall|t: int| 0 <= t < r@.len() ==> (#[trigger] r@[t]) < cat@.len(),
{
    let mut out: Vec<usize> = Vec::new();
    let mut i: usize = 0;
    proof {
        reveal(Seq::filter);
        assert(Seq::new(0, |x: int| x as usize).filter(
            |t: usize| spec_matches(*req, ident, cat@[t as int], sc@[t as int]),
        ) =~= Seq::<usize>::empty());
    }
    while i < cat.len()
        invariant
            i <= cat.len(),
            sc@.len() == cat@.len(),
            out@ == Seq::new(i as nat, |x: int| x as usize).filter(
                |t: usize| spec_matches(*req, ident, cat@[t as int], sc@[t as int]),
            ),
            forall|t: int| 0 <= t < out@.len() ==> (#[trigger] out@[t]) < cat@.len(),
        decreases cat.len() - i,
    {
        proof {
            reveal(Seq::filter);
            let base = Seq::new(i as nat, |x: int| x as usize);
            let next = Seq::new(i as nat + 1, |x: int| x as usize);
            assert(next.drop_last() =~= base);
            assert(next.last() == i as usize);
        }
        if item_matches(req, ident, &cat[i], &sc[i]) {
            out.push(i);
        }
        i = i + 1;
    }
    proof {
        assert(Seq::new(i as nat, |x: int| x as usize) =~= Seq::new(
            cat@.len(),
            |x: int| x as usize,
        ));
    }
    out
}

/// The exact-match flag of every item, cached for the comparator.
fn exact_flags(cat: &Vec<CatalogItem>, req: &SearchRequest) -> (r: Vec<bool>)
    ensures
        r@.len() == cat@.len(),
        forall|f: int| 0 <= f < r@.len() ==> r@[f] == spec_exact_match(*req, cat@[f]),
{
    let mut out: Vec<bool> = Vec::new();
    let mut i: usize = 0;
    while i < cat.len()
        invariant
            i <= cat.len(),
            out@.len() == i,
            forall|f: int| 0 <= f < i ==> out@[f] == spec_exact_match(*req, cat@[f]),
        decreases cat.len() - i,
    {
        let e = exact_match(req, &cat[i]);
        out.push(e);
        i = i + 1;
    }
    out
}

/// Executable strictly-after test; `pname` is the looked-up name of the
/// payload's id.
fn after_exec(
    cat: &Vec<CatalogItem>,
    sc: &Vec<TextScore>,
    flags: &Vec<bool>,
    Ghost(req): Ghost<SearchRequest>,
    p: &SeekPayload,
    pname: &Option<Vec<u8>>,
    i: usize,
) -> (r: bool)
    requires
        i < cat@.len(),
        sc@.len() == cat@.len(),
        flags@.len() == cat@.len(),
        forall|f: int| 0 <= f < flags@.len() ==> flags@[f] == spec_exact_match(req, cat@[f]),
        match *pname {
            Option::Some(v) => spec_name_of_id(cat@, spec_payload_id(*p)) == Some(v@),
            Option::None => spec_name_of_id(cat@, spec_payload_id(*p)) is None,
        },
    ensures
        r == spec_after(cat@, sc@, req, *p, i as int),
{
    match p {
        SeekPayload::Name { .. } => match pname {
            Some(nm) => crate::text::bytes_lt(nm, &cat[i].name),
            None => false,
        },
        SeekPayload::New { created_at, id } => (cat[i].created_at == *created_at && cat[i].id
            < *id) || cat[i].created_at < *created_at,
        SeekPayload::RecentUpdates { updated_at, id } => (cat[i].updated_at == *updated_at
            && cat[i].id < *id) || cat[i].updated_at < *updated_at,
        SeekPayload::RecentDownloads { recent_downloads, id } => match recent_downloads {
            Some(dl) => {
                let tie = match cat[i].recent_downloads {
                    Some(d) => d == *dl,
                    None => false,
                };
                let less = match cat[i].recent_downloads {
                    Some(d) => d < *dl,
                    None => true,
                };
                (tie && cat[i].id < *id) || less
            },
            None => cat[i].recent_downloads.is_none() && cat[i].id < *id,
        },
        SeekPayload::Downloads { downloads, id } => (cat[i].downloads == *downloads && cat[i].id
            < *id) || cat[i].downloads < *downloads,
        SeekPayload::Query { exact, id } => {
            let e = flags[i];
            let byname = match pname {
                Some(nm) => e == *exact && crate::text::bytes_lt(nm, &cat[i].name),
                None => false,
            };
            byname || (!e && *exact)
        },
        SeekPayload::Relevance { exact, rank, id } => {
            let e = flags[i];
            let byname = match pname {
                Some(nm) => e == *exact && sc[i].rank == *rank && crate::text::bytes_lt(
                    nm,
                    &cat[i].name,
                ),
                None => false,
            };
            byname || (e == *exact && sc[i].rank < *rank) || (!e && *exact)
        },
    }
}

/// Renders the item at catalog position `idx` as a page row.
fn make_row(
    cat: &Vec<CatalogItem>,
    sc: &Vec<TextScore>,
    flags: &Vec<bool>,
    k: SortKey,
    Ghost(req): Ghost<SearchRequest>,
    idx: usize,
) -> (r: PageRow)
    requires
        idx < cat@.len(),
        sc@.len() == cat@.len(),
        flags@.len() == cat@.len(),
        forall|f: int| 0 <= f < flags@.len() ==> flags@[f] == spec_exact_match(req, cat@[f]),
    ensures
        spec_row_ok(cat@, sc@, req, k, idx, r),
{
    let rank: i64 = match k {
        SortKey::Relevance => sc[idx].rank,
        _ => 0,
    };
    PageRow {
        index: idx,
        id: cat[idx].id,
        name: copy_bytes(&cat[idx].name),
        downloads: cat[idx].downloads,
        recent_downloads: cat[idx].recent_downloads,
        exact_match: flags[idx],
        rank,
        max_version: top_version(&cat[idx].versions, false),
        max_stable_version: top_version(&cat[idx].versions, true),
    }
}

/// The one query operation of the engine.
///
/// Composes the predicate from the request's facets, orders the matching
/// items under the resolved sort strategy, and returns one page of the
/// result set: offset-based when an explicit `page` was requested,
/// seek-based otherwise. `total` always counts the whole filtered result
/// set, never a seek-restricted one. `scores` is the scoring oracle's
/// verdict for each item of `catalog` under the request's text query.
#[verifier::rlimit(100)]
#[verifier::spinoff_prover]
pub fn search(
    catalog: &Vec<CatalogItem>,
    scores: &Vec<TextScore>,
    req: &SearchRequest,
    ident: Option<i64>,
) -> (r: Result<PageResult, SearchError>)
    requires
        catalog_wf(catalog@),
        scores@.len() == catalog@.len(),
    ensures
        ({
            let k = spec_sort_key(*req);
            let ord = spec_result_order(catalog@, scores@, *req, ident, k);
            match r {
                Result::Err(e) => {
                    &&& spec_request_err(*req, ident, k)
                    &&& (err_letter(*req) ==> (e matches SearchError::Validation(m) && m@
                        == letter_msg()))
                    &&& (!err_letter(*req) && err_following(*req, ident) ==> (e matches
                        SearchError::Unauthenticated))
                    &&& (!err_letter(*req) && !err_following(*req, ident) && err_page(*req) ==> (
                    e matches SearchError::InvalidPaginationParameter(v) && v@
                        == req.page.unwrap()@))
                    &&& (!err_letter(*req) && !err_following(*req, ident) && !err_page(*req)
                        && err_per_page(*req) ==> (e matches
                    SearchError::InvalidPaginationParameter(v) && v@ == req.per_page.unwrap()@))
                    &&& (!err_letter(*req) && !err_following(*req, ident) && !err_page(*req)
                        && !err_per_page(*req) && err_seek(*req, k) ==> (e matches
                        SearchError::BadSeekToken))
                },
                Result::Ok(page) => {
                    let pp = spec_per_page(*req) as int;
                    &&& !spec_request_err(*req, ident, k)
                    &&& page.total == ord.len()
                    &&& match req.page {
                        Option::Some(s) => {
                            // offset mode
                            let pnum = spec_page_param(s@, MAX_PAGE).unwrap() as int;
                            let off = (pnum - 1) * pp;
                            let lo = if off < ord.len() {
                                off
                            } else {
                                ord.len() as int
                            };
                            let hi = if off + pp < ord.len() {
                                off + pp
                            } else {
                                ord.len() as int
                            };
                            &&& page.rows@.len() == hi - lo
                            &&& forall|j: int|
                                0 <= j < hi - lo ==> spec_row_ok(
                                    catalog@,
                                    scores@,
                                    *req,
                                    k,
                                    ord[lo + j],
                                    #[trigger] page.rows@[j],
                                )
                            &&& (page.prev_page is Some <==> pnum > 1)
                            &&& (page.prev_page matches Some(pr) ==> (pr matches PageRef::Numeric(
                                n,
                            ) && n == pnum - 1))
                            &&& (page.next_page is Some <==> off + pp < ord.len())
                            &&& (page.next_page matches Some(nx) ==> (nx matches PageRef::Numeric(
                                n,
                            ) && n == pnum + 1))
                        },
                        Option::None => {
                            // seek mode
                            let pos = match req.seek {
                                Option::Some(s) => spec_seek_pos(
                                    catalog@,
                                    scores@,
                                    *req,
                                    spec_decode(s@, k).unwrap(),
                                    ord,
                                ),
                                Option::None => 0,
                            };
                            let hi = if pos + pp < ord.len() {
                                pos + pp
                            } else {
                                ord.len() as int
                            };
                            &&& page.rows@.len() == hi - pos
                            &&& forall|j: int|
                                0 <= j < hi - pos ==> spec_row_ok(
                                    catalog@,
                                    scores@,
                                    *req,
                                    k,
                                    ord[pos + j],
                                    #[trigger] page.rows@[j],
                                )
                            &&& page.prev_page is None
                            &&& (page.next_page is Some <==> hi - pos == pp)
                            &&& (page.next_page matches Some(nx) ==> (nx matches PageRef::Token(t)
                                && t@ == spec_encode(
                                spec_to_payload(
                                    k,
                                    catalog@[ord[hi - 1] as int],
                                    spec_exact_match(*req, catalog@[ord[hi - 1] as int]),
                                    spec_rank(scores@, k, ord[hi - 1] as int),
                                ),
                            )))
                        },
                    }
                },
            }
        }),
{
    // Facet validation, in composer order.
    let facet = facet_of(req);
    if let FacetKind::Letter = facet {
        let empty = match &req.letter {
            Some(l) => l.len() == 0,
            None => false,
        };
        if empty {
            return Err(SearchError::Validation(letter_msg_bytes()));
        }
    }
    if let FacetKind::Following = facet {
        if ident.is_none() {
            return Err(SearchError::Unauthenticated);
        }
    }
    // Sort strategy.
    let has_q = match &req.q {
        Some(raw) => {
            let clean = crate::text::remove_nul(raw);
            clean.len() > 0
        },
        None => false,
    };
    let k = resolve_sort(&req.sort, has_q);
    // Pagination parameters.
    let pnum: Option<u32> = match &req.page {
        Some(s) => match check_page_param(s, MAX_PAGE) {
            Ok(v) => Some(v),
            Err(e) => {
                return Err(e);
            },
        },
        None => None,
    };
    let pp: u32 = match &req.per_page {
        Some(s) => match check_page_param(s, MAX_PER_PAGE) {
            Ok(v) => v,
            Err(e) => {
                return Err(e);
            },
        },
        None => DEFAULT_PER_PAGE,
    };
    // Continuation token, ignored when an explicit page wins.
    let payload: Option<SeekPayload> = if pnum.is_none() {
        match &req.seek {
            Some(s) => match decode(s, k) {
                Ok(p) => Some(p),
                Err(e) => {
                    return Err(e);
                },
            },
            None => None,
        }
    } else {
        None
    };
    // The ordered result set.
    let matching = collect_matching(catalog, scores, req, ident);
    let flags = exact_flags(catalog, req);
    let mut ord: Vec<usize> = matching;
    sort_indices_for(catalog, scores, &flags, k, Ghost(*req), &mut ord);
    let ghost spec_ord = spec_result_order(catalog@, scores@, *req, ident, k);
    proof {
        let leq = row_order(catalog@, scores@, *req, k);
        lemma_row_order_total(catalog@, scores@, *req, k);
        spec_matching(catalog@, scores@, *req, ident).lemma_sort_by_ensures(leq);
        vstd::seq_lib::lemma_sorted_unique(ord@, spec_ord, leq);
        assert(ord@ == spec_ord);
    }
    let total = ord.len();
    assert(1 <= pp && pp <= MAX_PER_PAGE);
    let pp_us = pp as usize;
    match pnum {
        Some(p) => {
            // Offset mode.
            assert(1 <= p && p <= MAX_PAGE);
            proof {
                assert((p - 1) * (pp as int) <= 19900) by (nonlinear_arith)
                    requires
                        1 <= p <= 200,
                        1 <= pp <= 100,
                ;
            }
            let off32: u32 = (p - 1) * pp;
            assert(off32 <= 19900);
            let off = off32 as usize;
            let lo = if off < total {
                off
            } else {
                total
            };
            let remaining = total - lo;
            let take = if pp_us < remaining {
                pp_us
            } else {
                remaining
            };
            let hi = lo + take;
            let rows = slice_rows(catalog, scores, &flags, k, Ghost(*req), &ord, lo, hi);
            let next_page = if off + pp_us < total {
                Some(PageRef::Numeric(p + 1))
            } else {
                None
            };
            let prev_page = if p > 1 {
                Some(PageRef::Numeric(p - 1))
            } else {
                None
            };
            Ok(PageResult { rows, total, next_page, prev_page })
        },
        None => {
            // Seek mode.
            let pname: Option<Vec<u8>> = match &payload {
                Some(pl) => {
                    let pid = payload_id(pl);
                    match find_by_id(catalog, pid) {
                        Some(j) => Some(copy_bytes(&catalog[j].name)),
                        None => None,
                    }
                },
                None => None,
            };
            let mut pos: usize = 0;
            if let Some(pl) = &payload {
                while pos < total && !after_exec(
                    catalog,
                    scores,
                    &flags,
                    Ghost(*req),
                    pl,
                    &pname,
                    ord[pos],
                )
                    invariant
                        pos <= total,
                        total == ord@.len(),
                        ord@ == spec_ord,
                        scores@.len() == catalog@.len(),
                        flags@.len() == catalog@.len(),
                        forall|f: int|
                            0 <= f < flags@.len() ==> flags@[f] == spec_exact_match(
                                *req,
                                catalog@[f],
                            ),
                        forall|t: int| 0 <= t < ord@.len() ==> (#[trigger] ord@[t]) < catalog@.len(),
                        match pname {
                            Option::Some(v) => spec_name_of_id(catalog@, spec_payload_id(*pl))
                                == Some(v@),
                            Option::None => spec_name_of_id(catalog@, spec_payload_id(*pl)) is None,
                        },
                        spec_seek_pos(catalog@, scores@, *req, *pl, spec_ord) == spec_seek_pos_from(
                            catalog@,
                            scores@,
                            *req,
                            *pl,
                            spec_ord,
                            pos as int,
                        ),
                    decreases total - pos,
                {
                    pos = pos + 1;
                }
                proof {
                    assert(pos == spec_seek_pos(catalog@, scores@, *req, *pl, spec_ord));
                }
            }
            let remaining = total - pos;
            let take = if pp_us < remaining {
                pp_us
            } else {
                remaining
            };
            let hi = pos + take;
            let rows = slice_rows(catalog, scores, &flags, k, Ghost(*req), &ord, pos, hi);
            let next_page = if take == pp_us && pp_us > 0 {
                let last_idx = ord[hi - 1];
                let rank: i64 = match k {
                    SortKey::Relevance => scores[last_idx].rank,
                    _ => 0,
                };
                let pl = to_payload(k, &catalog[last_idx], flags[last_idx], rank);
                let token = encode(&pl);
                Some(PageRef::Token(token))
            } else {
                None
            };
            Ok(PageResult { rows, total, next_page, prev_page: None })
        },
    }
}

/// The id a payload resumes from, executably.
fn payload_id(p: &SeekPayload) -> (r: i64)
    ensures
        r == spec_payload_id(*p),
{
    match p {
        SeekPayload::Name { id } => *id,
        SeekPayload::New { id, .. } => *id,
        SeekPayload::RecentUpdates { id, .. } => *id,
        SeekPayload::RecentDownloads { id, .. } => *id,
        SeekPayload::Downloads { id, .. } => *id,
        SeekPayload::Query { id, .. } => *id,
        SeekPayload::Relevance { id, .. } => *id,
    }
}

/// Renders the slice `ord[lo..hi]` of the result set.
fn slice_rows(
    cat: &Vec<CatalogItem>,
    sc: &Vec<TextScore>,
    flags: &Vec<bool>,
    k: SortKey,
    Ghost(req): Ghost<SearchRequest>,
    ord: &Vec<usize>,
    lo: usize,
    hi: usize,
) -> (r: Vec<PageRow>)
    requires
        lo <= hi <= ord@.len(),
        sc@.len() == cat@.len(),
        flags@.len() == cat@.len(),
        forall|f: int| 0 <= f < flags@.len() ==> flags@[f] == spec_exact_match(req, cat@[f]),
        forall|t: int| 0 <= t < ord@.len() ==> (#[trigger] ord@[t]) < cat@.len(),
    ensures
        r@.len() == hi - lo,
        forall|j: int|
            0 <= j < hi - lo ==> spec_row_ok(cat@, sc@, req, k, ord@[lo + j], #[trigger] r@[j]),
{
    let mut rows: Vec<PageRow> = Vec::new();
    let mut t: usize = lo;
    while t < hi
        invariant
            lo <= t <= hi <= ord@.len(),
            sc@.len() == cat@.len(),
            flags@.len() == cat@.len(),
            forall|f: int| 0 <= f < flags@.len() ==> flags@[f] == spec_exact_match(req, cat@[f]),
            forall|u: int| 0 <= u < ord@.len() ==> (#[trigger] ord@[u]) < cat@.len(),
            rows@.len() == t - lo,
            forall|j: int|
                0 <= j < t - lo ==> spec_row_ok(cat@, sc@, req, k, ord@[lo + j], #[trigger] rows@[j]),
        decreases hi - t,
    {
        let idx = ord[t];
        let row = make_row(cat, sc, flags, k, Ghost(req), idx);
        rows.push(row);
        t = t + 1;
    }
    rows
}

/// Sorts the collected indices under the order in effect.
fn sort_indices_for(
    cat: &Vec<CatalogItem>,
    sc: &Vec<TextScore>,
    flags: &Vec<bool>,
    k: SortKey,
    Ghost(req): Ghost<SearchRequest>,
    v: &mut Vec<usize>,
)
    requires
        sc@.len() == cat@.len(),
        flags@.len() == cat@.len(),
        forall|f: int| 0 <= f < flags@.len() ==> flags@[f] == spec_exact_match(req, cat@[f]),
        forall|t: int| 0 <= t < old(v)@.len() ==> (#[trigger] old(v)@[t]) < cat@.len(),
    ensures
        final(v)@.to_multiset() == old(v)@.to_multiset(),
        final(v)@.len() == old(v)@.len(),
        vstd::relations::sorted_by(final(v)@, row_order(cat@, sc@, req, k)),
        forall|t: int| 0 <= t < final(v)@.len() ==> (#[trigger] final(v)@[t]) < cat@.len(),
{
    crate::order::sort_indices(cat, sc, flags, k, Ghost(req), v);
}

} // verus!
