//! The engine's cross-cutting guarantees, proved against the public
//! contracts: `total` is the same under either pagination mode, seek
//! pages partition the ordered result set, exact matches come first,
//! letter matching is case-insensitive, yank visibility behaves, and an
//! owner facet with no owner yields an empty result, not an error.
use vstd::prelude::*;

use crate::catalog::{CatalogItem, OwnerKind, TextScore, catalog_wf, spec_name_of_id};
use crate::engine::{
    spec_after, spec_matching, spec_rank, spec_result_order, spec_seek_pos, spec_seek_pos_from,
};
use crate::order::{
    keys_eq, lemma_row_order_total, lemma_row_trichotomy, row_lt, row_order,
};
use crate::params::{
    FacetKind, SearchRequest, spec_exact_match, spec_facet, spec_facet_match, spec_has_owner,
    spec_matches,
};
use crate::seek::{SeekPayload, spec_to_payload};
use crate::sort::SortKey;
use crate::text::lower_byte;

verus! {

// ---------------------------------------------------------------------
// Sequence helpers
// ---------------------------------------------------------------------
/// A filter keeps nothing when the predicate holds nowhere.
proof fn lemma_filter_all_false<A>(s: Seq<A>, pred: spec_fn(A) -> bool)
    requires
        forall|i: int| 0 <= i < s.len() ==> !pred(#[trigger] s[i]),
    ensures
        s.filter(pred).len() == 0,
    decreases s.len(),
{
    reveal(Seq::filter);
    if s.len() > 0 {
        lemma_filter_all_false(s.drop_last(), pred);
    }
}

/// Two pointwise-equal predicates filter a sequence identically.
proof fn lemma_filter_congruent<A>(s: Seq<A>, p1: spec_fn(A) -> bool, p2: spec_fn(A) -> bool)
    requires
        forall|i: int| 0 <= i < s.len() ==> p1(#[trigger] s[i]) == p2(s[i]),
    ensures
        s.filter(p1) == s.filter(p2),
    decreases s.len(),
{
    reveal(Seq::filter);
    if s.len() > 0 {
        lemma_filter_congruent(s.drop_last(), p1, p2);
        assert(s.filter(p1) =~= s.filter(p2));
    }
}

/// Filtering a strictly increasing index sequence keeps it strictly
/// increasing, and every kept value is one of the original values.
proof fn lemma_filter_increasing(s: Seq<usize>, pred: spec_fn(usize) -> bool)
    requires
        forall|a: int, b: int| 0 <= a < b < s.len() ==> s[a] < s[b],
    ensures
        forall|a: int, b: int|
            0 <= a < b < s.filter(pred).len() ==> #[trigger] s.filter(pred)[a] < #[trigger] s.filter(
                pred,
            )[b],
        forall|i: int|
            0 <= i < s.filter(pred).len() ==> exists|j: int|
                0 <= j < s.len() && #[trigger] s.filter(pred)[i] == s[j],
    decreases s.len(),
{
    reveal(Seq::filter);
    if s.len() > 0 {
        let d = s.drop_last();
        lemma_filter_increasing(d, pred);
        assert forall|i: int| 0 <= i < s.filter(pred).len() implies exists|j: int|
            0 <= j < s.len() && #[trigger] s.filter(pred)[i] == s[j] by {
            if i < d.filter(pred).len() {
                let j = choose|j: int| 0 <= j < d.len() && d.filter(pred)[i] == d[j];
                assert(s.filter(pred)[i] == s[j]);
            } else {
                assert(s.filter(pred)[i] == s[s.len() - 1]);
            }
        }
        assert forall|a: int, b: int| 0 <= a < b < s.filter(pred).len() implies s.filter(pred)[a]
            < s.filter(pred)[b] by {
            if b < d.filter(pred).len() {
            } else if pred(s.last()) && b == s.filter(pred).len() - 1 {
                let j = choose|j: int| 0 <= j < d.len() && d.filter(pred)[a] == d[j];
                assert(s.filter(pred)[b] == s[s.len() - 1]);
                assert(s.filter(pred)[a] == s[j]);
            }
        }
    }
}

/// The ordered result set lists pairwise distinct, in-range catalog
/// positions, sorted by the order in effect.
pub proof fn lemma_result_order_wf(
    cat: Seq<CatalogItem>,
    sc: Seq<TextScore>,
    req: SearchRequest,
    ident: Option<i64>,
    k: SortKey,
)
    requires
        cat.len() <= usize::MAX,
    ensures
        ({
            let ord = spec_result_order(cat, sc, req, ident, k);
            &&& vstd::relations::sorted_by(ord, row_order(cat, sc, req, k))
            &&& forall|t: int| 0 <= t < ord.len() ==> (#[trigger] ord[t]) < cat.len()
            &&& forall|a: int, b: int|
                0 <= a < b < ord.len() ==> #[trigger] ord[a] != #[trigger] ord[b]
            &&& forall|t: int|
                0 <= t < ord.len() ==> spec_matches(
                    req,
                    ident,
                    cat[(#[trigger] ord[t]) as int],
                    sc[ord[t] as int],
                )
            &&& ord.len() == spec_matching(cat, sc, req, ident).len()
        }),
{
    broadcast use vstd::seq_lib::group_to_multiset_ensures;

    let all = Seq::new(cat.len(), |i: int| i as usize);
    let pred = |t: usize| spec_matches(req, ident, cat[t as int], sc[t as int]);
    let m = spec_matching(cat, sc, req, ident);
    let leq = row_order(cat, sc, req, k);
    let ord = spec_result_order(cat, sc, req, ident, k);
    lemma_row_order_total(cat, sc, req, k);
    m.lemma_sort_by_ensures(leq);
    assert forall|a: int, b: int| 0 <= a < b < all.len() implies all[a] < all[b] by {
        assert(all[a] == a as usize);
        assert(all[b] == b as usize);
    }
    lemma_filter_increasing(all, pred);
    // each ord element occurs in the matching list
    assert(m.to_multiset() =~= ord.to_multiset());
    assert forall|t: int| 0 <= t < ord.len() implies (#[trigger] ord[t]) < cat.len()
        && spec_matches(req, ident, cat[ord[t] as int], sc[ord[t] as int]) by {
        assert(ord.to_multiset().contains(ord[t]));
        assert(m.to_multiset().contains(ord[t]));
        assert(m.contains(ord[t]));
        let i = choose|i: int| 0 <= i < m.len() && m[i] == ord[t];
        assert(pred(m[i])) by {
            all.lemma_filter_pred(pred, i);
        }
        let j = choose|j: int| 0 <= j < all.len() && m[i] == all[j];
        assert(all[j] < cat.len());
    }
    // distinctness: the matching list is strictly increasing, so has no
    // duplicate, and the multiset carries that to the sorted list
    assert forall|a: int, b: int| 0 <= a < m.len() && 0 <= b < m.len() && a != b implies m[a]
        != m[b] by {
        if a < b {
            assert(m[a] < m[b]);
        } else {
            assert(m[b] < m[a]);
        }
    }
    assert(m.no_duplicates());
    m.lemma_multiset_has_no_duplicates();
    assert forall|x: usize| ord.to_multiset().contains(x) implies ord.to_multiset().count(x)
        == 1 by {
        assert(m.to_multiset().contains(x));
        assert(m.to_multiset().count(x) == 1);
    }
    ord.lemma_multiset_has_no_duplicates_conv();
    assert(ord.no_duplicates());
    assert(m.to_multiset().len() == m.len());
    assert(ord.to_multiset().len() == ord.len());
    assert forall|a: int, b: int| 0 <= a < b < ord.len() implies #[trigger] ord[a]
        != #[trigger] ord[b] by {}
}

} // verus!

verus! {

/// On a well-formed catalog, looking an item's own id up yields its name.
proof fn lemma_name_of_id_self(cat: Seq<CatalogItem>, r: int)
    requires
        catalog_wf(cat),
        0 <= r < cat.len(),
    ensures
        spec_name_of_id(cat, cat[r].id) == Some(cat[r].name@),
{
    assert(exists|j: int| 0 <= j < cat.len() && (#[trigger] cat[j]).id == cat[r].id);
    let j = choose|j: int| 0 <= j < cat.len() && (#[trigger] cat[j]).id == cat[r].id;
    if j != r {
        assert((cat[j]).id != (cat[r]).id);
    }
}

/// On a well-formed catalog, distinct rows have distinct sort keys: every
/// strategy's key ends in the id or the unique name.
proof fn lemma_keys_distinct(
    cat: Seq<CatalogItem>,
    sc: Seq<TextScore>,
    req: SearchRequest,
    k: SortKey,
    x: int,
    y: int,
)
    requires
        catalog_wf(cat),
        0 <= x < cat.len(),
        0 <= y < cat.len(),
        x != y,
    ensures
        !keys_eq(cat, sc, req, k, x, y),
{
    assert(cat[x].id != cat[y].id && cat[x].name@ != cat[y].name@);
}

/// A row lies strictly after the resume tuple of row `r` exactly when it
/// sorts strictly after `r`: the composite comparison mirrors the order.
proof fn lemma_after_is_row_lt(
    cat: Seq<CatalogItem>,
    sc: Seq<TextScore>,
    req: SearchRequest,
    k: SortKey,
    r: int,
    x: int,
)
    requires
        catalog_wf(cat),
        0 <= r < cat.len(),
        0 <= x < cat.len(),
    ensures
        spec_after(
            cat,
            sc,
            req,
            spec_to_payload(k, cat[r], spec_exact_match(req, cat[r]), spec_rank(sc, k, r)),
            x,
        ) == row_lt(cat, sc, req, k, r, x),
{
    lemma_name_of_id_self(cat, r);
}

/// When nothing before `e` and everything from `e` on lies strictly
/// after the tuple, the resume position is `e`.
proof fn lemma_seek_pos_boundary(
    cat: Seq<CatalogItem>,
    sc: Seq<TextScore>,
    req: SearchRequest,
    p: SeekPayload,
    ord: Seq<usize>,
    e: int,
    i: int,
)
    requires
        0 <= i <= e <= ord.len(),
        forall|t: int| 0 <= t < e ==> !spec_after(cat, sc, req, p, (#[trigger] ord[t]) as int),
        forall|t: int| e <= t < ord.len() ==> spec_after(cat, sc, req, p, (#[trigger] ord[t]) as int),
    ensures
        spec_seek_pos_from(cat, sc, req, p, ord, i) == e,
    decreases e - i,
{
    if i < e {
        lemma_seek_pos_boundary(cat, sc, req, p, ord, e, i + 1);
    }
}

/// The resume theorem behind seek pagination: the token built from the
/// row at position `e - 1` of the ordered result set resumes exactly at
/// position `e`. Iterating pages therefore yields each matching item
/// exactly once, in order, with no skips and no repeats.
pub proof fn lemma_resume_position(
    cat: Seq<CatalogItem>,
    sc: Seq<TextScore>,
    req: SearchRequest,
    ident: Option<i64>,
    k: SortKey,
    e: int,
)
    requires
        catalog_wf(cat),
        cat.len() <= usize::MAX,
        0 < e <= spec_result_order(cat, sc, req, ident, k).len(),
    ensures
        ({
            let ord = spec_result_order(cat, sc, req, ident, k);
            let last = ord[e - 1];
            let p = spec_to_payload(
                k,
                cat[last as int],
                spec_exact_match(req, cat[last as int]),
                spec_rank(sc, k, last as int),
            );
            spec_seek_pos(cat, sc, req, p, ord) == e
        }),
{
    let ord = spec_result_order(cat, sc, req, ident, k);
    let leq = row_order(cat, sc, req, k);
    let last = ord[e - 1];
    let p = spec_to_payload(
        k,
        cat[last as int],
        spec_exact_match(req, cat[last as int]),
        spec_rank(sc, k, last as int),
    );
    lemma_result_order_wf(cat, sc, req, ident, k);
    assert forall|t: int| 0 <= t < e implies !spec_after(
        cat,
        sc,
        req,
        p,
        (#[trigger] ord[t]) as int,
    ) by {
        lemma_after_is_row_lt(cat, sc, req, k, last as int, ord[t] as int);
        if t < e - 1 {
            assert(leq(ord[t], ord[e - 1]));
            lemma_row_trichotomy(cat, sc, req, k, ord[t] as int, last as int);
        } else {
            lemma_row_trichotomy(cat, sc, req, k, last as int, last as int);
        }
    }
    assert forall|t: int| e <= t < ord.len() implies spec_after(
        cat,
        sc,
        req,
        p,
        (#[trigger] ord[t]) as int,
    ) by {
        lemma_after_is_row_lt(cat, sc, req, k, last as int, ord[t] as int);
        assert(leq(ord[e - 1], ord[t]));
        assert(ord[t] != ord[e - 1]);
        lemma_keys_distinct(cat, sc, req, k, last as int, ord[t] as int);
    }
    lemma_seek_pos_boundary(cat, sc, req, p, ord, e, 0);
}

/// Consecutive pages of width `pp` tile the ordered result set: the rows
/// of pages `0 .. i` taken together are exactly its first `i * pp`
/// entries, so a walk that follows `next_page` until it is absent visits
/// every matching item exactly once, in order, for every page width.
pub proof fn lemma_pages_partition(ord: Seq<usize>, pp: int, i: int)
    requires
        pp >= 1,
        i >= 0,
    ensures
        spec_pages_concat(ord, pp, i) == ord.take(
            if i * pp < ord.len() {
                i * pp
            } else {
                ord.len() as int
            },
        ),
    decreases i,
{
    if i == 0 {
        assert(spec_pages_concat(ord, pp, 0) =~= ord.take(0));
    } else {
        lemma_pages_partition(ord, pp, i - 1);
        assert((i - 1) * pp == i * pp - pp) by (nonlinear_arith);
        assert(i * pp > 0) by (nonlinear_arith)
            requires
                pp >= 1,
                i >= 1,
        ;
        let lo = if (i - 1) * pp < ord.len() {
            (i - 1) * pp
        } else {
            ord.len() as int
        };
        let hi = if i * pp < ord.len() {
            i * pp
        } else {
            ord.len() as int
        };
        assert(ord.take(lo) + ord.subrange(lo, hi) =~= ord.take(hi));
    }
}

/// The rows of pages `0 .. i` of width `pp`, concatenated.
pub open spec fn spec_pages_concat(ord: Seq<usize>, pp: int, i: int) -> Seq<usize>
    decreases i,
{
    if i <= 0 {
        Seq::empty()
    } else {
        let lo = if (i - 1) * pp < ord.len() {
            (i - 1) * pp
        } else {
            ord.len() as int
        };
        let hi = if i * pp < ord.len() {
            i * pp
        } else {
            ord.len() as int
        };
        spec_pages_concat(ord, pp, i - 1) + ord.subrange(lo, hi)
    }
}

/// `total` does not depend on how a query is paginated or sorted: two
/// requests with the same facets, text query and yank visibility have
/// result sets of the same size under any two orderings.
pub proof fn lemma_total_mode_independent(
    cat: Seq<CatalogItem>,
    sc: Seq<TextScore>,
    req1: SearchRequest,
    req2: SearchRequest,
    ident: Option<i64>,
    k1: SortKey,
    k2: SortKey,
)
    requires
        cat.len() <= usize::MAX,
        req1.q == req2.q,
        req1.category == req2.category,
        req1.all_keywords == req2.all_keywords,
        req1.keyword == req2.keyword,
        req1.letter == req2.letter,
        req1.user_id == req2.user_id,
        req1.team_id == req2.team_id,
        req1.following == req2.following,
        req1.ids == req2.ids,
        req1.include_yanked == req2.include_yanked,
    ensures
        spec_result_order(cat, sc, req1, ident, k1).len() == spec_result_order(
            cat,
            sc,
            req2,
            ident,
            k2,
        ).len(),
{
    let all = Seq::new(cat.len(), |i: int| i as usize);
    let p1 = |t: usize| spec_matches(req1, ident, cat[t as int], sc[t as int]);
    let p2 = |t: usize| spec_matches(req2, ident, cat[t as int], sc[t as int]);
    assert forall|i: int| 0 <= i < all.len() implies p1(#[trigger] all[i]) == p2(all[i]) by {
        let t = all[i];
        assert(spec_facet(req1) == spec_facet(req2));
        assert(spec_facet_match(req1, ident, cat[t as int]) == spec_facet_match(
            req2,
            ident,
            cat[t as int],
        ));
    }
    lemma_filter_congruent(all, p1, p2);
    lemma_result_order_wf(cat, sc, req1, ident, k1);
    lemma_result_order_wf(cat, sc, req2, ident, k2);
}

/// Under the query orderings, every exact name match precedes every
/// partial match in the result set.
pub proof fn lemma_exact_matches_first(
    cat: Seq<CatalogItem>,
    sc: Seq<TextScore>,
    req: SearchRequest,
    ident: Option<i64>,
    k: SortKey,
    a: int,
    b: int,
)
    requires
        cat.len() <= usize::MAX,
        k == SortKey::Query || k == SortKey::Relevance,
        0 <= a < b < spec_result_order(cat, sc, req, ident, k).len(),
    ensures
        ({
            let ord = spec_result_order(cat, sc, req, ident, k);
            spec_exact_match(req, cat[ord[b] as int]) ==> spec_exact_match(req, cat[ord[a] as int])
        }),
{
    let ord = spec_result_order(cat, sc, req, ident, k);
    let leq = row_order(cat, sc, req, k);
    lemma_result_order_wf(cat, sc, req, ident, k);
    assert(leq(ord[a], ord[b]));
}

/// Letter matching is case-insensitive: two letter values whose first
/// bytes fold to the same letter select the same items.
pub proof fn lemma_letter_case_insensitive(
    req1: SearchRequest,
    req2: SearchRequest,
    ident: Option<i64>,
    item: CatalogItem,
)
    requires
        spec_facet(req1) == FacetKind::Letter,
        spec_facet(req2) == FacetKind::Letter,
        req1.letter.unwrap()@.len() > 0,
        req2.letter.unwrap()@.len() > 0,
        lower_byte(req1.letter.unwrap()@[0]) == lower_byte(req2.letter.unwrap()@[0]),
    ensures
        spec_facet_match(req1, ident, item) == spec_facet_match(req2, ident, item),
{
}

/// With yanked versions hidden, an item whose versions are all yanked
/// matches no request.
pub proof fn lemma_all_yanked_excluded(
    req: SearchRequest,
    ident: Option<i64>,
    item: CatalogItem,
    score: TextScore,
)
    requires
        !req.include_yanked,
        !crate::catalog::spec_has_unyanked(item.versions@),
    ensures
        !spec_matches(req, ident, item, score),
{
}

/// With yanked versions included, the yank state plays no part in the
/// predicate.
pub proof fn lemma_yanked_included(
    req: SearchRequest,
    ident: Option<i64>,
    item: CatalogItem,
    score: TextScore,
)
    requires
        req.include_yanked,
    ensures
        spec_matches(req, ident, item, score) == (spec_facet_match(req, ident, item)
            && crate::params::spec_text_match(req, item, score)),
{
}

/// An owner facet that no live ownership record satisfies yields an
/// empty result set — a `total` of zero, not an error.
pub proof fn lemma_owner_facet_empty(
    cat: Seq<CatalogItem>,
    sc: Seq<TextScore>,
    req: SearchRequest,
    ident: Option<i64>,
    k: SortKey,
)
    requires
        cat.len() <= usize::MAX,
        spec_facet(req) == FacetKind::User,
        forall|i: int|
            0 <= i < cat.len() ==> !spec_has_owner(
                #[trigger] cat[i],
                OwnerKind::User,
                req.user_id.unwrap(),
            ),
    ensures
        spec_result_order(cat, sc, req, ident, k).len() == 0,
{
    let all = Seq::new(cat.len(), |i: int| i as usize);
    let pred = |t: usize| spec_matches(req, ident, cat[t as int], sc[t as int]);
    assert forall|i: int| 0 <= i < all.len() implies !pred(#[trigger] all[i]) by {
        assert(all[i] < cat.len());
        assert(!spec_has_owner(cat[all[i] as int], OwnerKind::User, req.user_id.unwrap()));
    }
    lemma_filter_all_false(all, pred);
    lemma_result_order_wf(cat, sc, req, ident, k);
}

} // verus!

verus! {

/// The continuation round trip, end to end: the token the engine issues
/// for the page ending at position `e` decodes under the same ordering
/// to a payload that resumes exactly at `e`. No row is skipped and none
/// is repeated between consecutive pages.
pub proof fn lemma_next_token_resumes(
    cat: Seq<CatalogItem>,
    sc: Seq<TextScore>,
    req: SearchRequest,
    ident: Option<i64>,
    k: SortKey,
    e: int,
)
    requires
        catalog_wf(cat),
        cat.len() <= usize::MAX,
        0 < e <= spec_result_order(cat, sc, req, ident, k).len(),
    ensures
        ({
            let ord = spec_result_order(cat, sc, req, ident, k);
            let last = ord[e - 1];
            let p = spec_to_payload(
                k,
                cat[last as int],
                spec_exact_match(req, cat[last as int]),
                spec_rank(sc, k, last as int),
            );
            let token = crate::seek::spec_encode(p);
            &&& crate::seek::spec_decode(token, k) == Some(p)
            &&& spec_seek_pos(cat, sc, req, p, ord) == e
        }),
{
    let ord = spec_result_order(cat, sc, req, ident, k);
    let last = ord[e - 1];
    lemma_result_order_wf(cat, sc, req, ident, k);
    let p = spec_to_payload(
        k,
        cat[last as int],
        spec_exact_match(req, cat[last as int]),
        spec_rank(sc, k, last as int),
    );
    assert(crate::seek::spec_payload_key(p) == k);
    crate::seek::lemma_token_roundtrip(p);
    lemma_resume_position(cat, sc, req, ident, k, e);
}

} // verus!
