//! The total order behind each sort strategy.
//!
//! Rows are identified by their index into the catalog. Each strategy maps
//! an index to a key — three integers and a name, compared
//! lexicographically, with descending fields negated — and the index
//! itself breaks the (never reached on well-formed catalogs) remaining
//! ties, which makes the relation a total order on indices outright.
use vstd::prelude::*;

use crate::catalog::{CatalogItem, TextScore};
use crate::params::{SearchRequest, spec_exact_match};
use crate::sort::SortKey;
use crate::text::{lex_lt, lemma_lex_lt_irreflexive, lemma_lex_lt_transitive};

verus! {

/// First key component. Descending integer fields are negated; a flag
/// orders items with recent activity (or an exact name match) first.
pub open spec fn key1(cat: Seq<CatalogItem>, req: SearchRequest, k: SortKey, i: int) -> int {
    match k {
        SortKey::Name => 0,
        SortKey::Downloads => -(cat[i].downloads as int),
        SortKey::RecentDownloads => if cat[i].recent_downloads is Some {
            0
        } else {
            1
        },
        SortKey::RecentUpdates => -(cat[i].updated_at as int),
        SortKey::New => -(cat[i].created_at as int),
        SortKey::Query => if spec_exact_match(req, cat[i]) {
            0
        } else {
            1
        },
        SortKey::Relevance => if spec_exact_match(req, cat[i]) {
            0
        } else {
            1
        },
    }
}

/// Second key component.
pub open spec fn key2(
    cat: Seq<CatalogItem>,
    sc: Seq<TextScore>,
    k: SortKey,
    i: int,
) -> int {
    match k {
        SortKey::Name => 0,
        SortKey::Downloads => -(cat[i].id as int),
        SortKey::RecentDownloads => match cat[i].recent_downloads {
            Option::Some(d) => -(d as int),
            Option::None => 0,
        },
        SortKey::RecentUpdates => -(cat[i].id as int),
        SortKey::New => -(cat[i].id as int),
        SortKey::Query => 0,
        SortKey::Relevance => -(sc[i].rank as int),
    }
}

/// Third key component.
pub open spec fn key3(cat: Seq<CatalogItem>, k: SortKey, i: int) -> int {
    match k {
        SortKey::RecentDownloads => -(cat[i].id as int),
        _ => 0,
    }
}

/// Name component: the strategies that order by name ascending.
pub open spec fn key_name(cat: Seq<CatalogItem>, k: SortKey, i: int) -> Seq<u8> {
    match k {
        SortKey::Name => cat[i].name@,
        SortKey::Query => cat[i].name@,
        SortKey::Relevance => cat[i].name@,
        _ => Seq::empty(),
    }
}

/// Row `i` sorts strictly before row `j`.
pub open spec fn row_lt(
    cat: Seq<CatalogItem>,
    sc: Seq<TextScore>,
    req: SearchRequest,
    k: SortKey,
    i: int,
    j: int,
) -> bool {
    let a1 = key1(cat, req, k, i);
    let b1 = key1(cat, req, k, j);
    let a2 = key2(cat, sc, k, i);
    let b2 = key2(cat, sc, k, j);
    let a3 = key3(cat, k, i);
    let b3 = key3(cat, k, j);
    a1 < b1 || (a1 == b1 && (a2 < b2 || (a2 == b2 && (a3 < b3 || (a3 == b3 && lex_lt(
        key_name(cat, k, i),
        key_name(cat, k, j),
    ))))))
}

/// The keys of rows `i` and `j` coincide.
pub open spec fn keys_eq(
    cat: Seq<CatalogItem>,
    sc: Seq<TextScore>,
    req: SearchRequest,
    k: SortKey,
    i: int,
    j: int,
) -> bool {
    key1(cat, req, k, i) == key1(cat, req, k, j) && key2(cat, sc, k, i) == key2(cat, sc, k, j)
        && key3(cat, k, i) == key3(cat, k, j) && key_name(cat, k, i) == key_name(cat, k, j)
}

/// The total order on row indices: by key, then by index.
pub open spec fn row_leq(
    cat: Seq<CatalogItem>,
    sc: Seq<TextScore>,
    req: SearchRequest,
    k: SortKey,
    i: usize,
    j: usize,
) -> bool {
    row_lt(cat, sc, req, k, i as int, j as int) || (keys_eq(cat, sc, req, k, i as int, j as int)
        && i <= j)
}

/// The order as a relation value, for `sort_by` and its lemmas.
pub open spec fn row_order(
    cat: Seq<CatalogItem>,
    sc: Seq<TextScore>,
    req: SearchRequest,
    k: SortKey,
) -> spec_fn(usize, usize) -> bool {
    |i: usize, j: usize| row_leq(cat, sc, req, k, i, j)
}

/// Key trichotomy: two rows compare strictly one way, or the other, or
/// their keys coincide.
pub proof fn lemma_row_trichotomy(
    cat: Seq<CatalogItem>,
    sc: Seq<TextScore>,
    req: SearchRequest,
    k: SortKey,
    i: int,
    j: int,
)
    ensures
        row_lt(cat, sc, req, k, i, j) || row_lt(cat, sc, req, k, j, i) || keys_eq(
            cat,
            sc,
            req,
            k,
            i,
            j,
        ),
        row_lt(cat, sc, req, k, i, j) ==> !row_lt(cat, sc, req, k, j, i) && !keys_eq(
            cat,
            sc,
            req,
            k,
            i,
            j,
        ),
{
    lemma_lex_lt_irreflexive(key_name(cat, k, i), key_name(cat, k, j));
}

/// Strict comparison chains through equal keys and through itself.
pub proof fn lemma_row_lt_trans(
    cat: Seq<CatalogItem>,
    sc: Seq<TextScore>,
    req: SearchRequest,
    k: SortKey,
    i: int,
    j: int,
    l: int,
)
    ensures
        row_lt(cat, sc, req, k, i, j) && row_lt(cat, sc, req, k, j, l) ==> row_lt(
            cat,
            sc,
            req,
            k,
            i,
            l,
        ),
        row_lt(cat, sc, req, k, i, j) && keys_eq(cat, sc, req, k, j, l) ==> row_lt(
            cat,
            sc,
            req,
            k,
            i,
            l,
        ),
        keys_eq(cat, sc, req, k, i, j) && row_lt(cat, sc, req, k, j, l) ==> row_lt(
            cat,
            sc,
            req,
            k,
            i,
            l,
        ),
{
    if row_lt(cat, sc, req, k, i, j) && row_lt(cat, sc, req, k, j, l) {
        if lex_lt(key_name(cat, k, i), key_name(cat, k, j)) && lex_lt(
            key_name(cat, k, j),
            key_name(cat, k, l),
        ) {
            lemma_lex_lt_transitive(key_name(cat, k, i), key_name(cat, k, j), key_name(cat, k, l));
        }
    }
}

/// The row order is a total order on indices.
pub proof fn lemma_row_order_total(
    cat: Seq<CatalogItem>,
    sc: Seq<TextScore>,
    req: SearchRequest,
    k: SortKey,
)
    ensures
        vstd::relations::total_ordering(row_order(cat, sc, req, k)),
{
    let leq = row_order(cat, sc, req, k);
    assert forall|x: usize| #[trigger] leq(x, x) by {
        lemma_row_trichotomy(cat, sc, req, k, x as int, x as int);
    }
    assert forall|x: usize, y: usize| #[trigger] leq(x, y) && #[trigger] leq(y, x) implies x
        == y by {
        lemma_row_trichotomy(cat, sc, req, k, x as int, y as int);
    }
    assert forall|x: usize, y: usize, z: usize| #[trigger] leq(x, y) && #[trigger] leq(
        y,
        z,
    ) implies leq(x, z) by {
        lemma_row_lt_trans(cat, sc, req, k, x as int, y as int, z as int);
        lemma_row_trichotomy(cat, sc, req, k, x as int, y as int);
        lemma_row_trichotomy(cat, sc, req, k, y as int, z as int);
    }
    assert forall|x: usize, y: usize| #[trigger] leq(x, y) || #[trigger] leq(y, x) by {
        lemma_row_trichotomy(cat, sc, req, k, x as int, y as int);
    }
}

} // verus!

verus! {

/// Executable comparison of two rows under the order in effect.
/// `flags` caches the exact-match flag of every item.
pub fn row_le_exec(
    cat: &Vec<CatalogItem>,
    sc: &Vec<TextScore>,
    flags: &Vec<bool>,
    k: SortKey,
    Ghost(req): Ghost<SearchRequest>,
    i: usize,
    j: usize,
) -> (r: bool)
    requires
        i < cat@.len(),
        j < cat@.len(),
        sc@.len() == cat@.len(),
        flags@.len() == cat@.len(),
        forall|f: int| 0 <= f < flags@.len() ==> flags@[f] == spec_exact_match(req, cat@[f]),
    ensures
        r == row_leq(cat@, sc@, req, k, i, j),
{
    match k {
        SortKey::Name => {
            if crate::text::bytes_lt(&cat[i].name, &cat[j].name) {
                true
            } else if crate::text::bytes_eq(&cat[i].name, &cat[j].name) {
                i <= j
            } else {
                false
            }
        },
        SortKey::Downloads => {
            let di = cat[i].downloads;
            let dj = cat[j].downloads;
            if di != dj {
                dj < di
            } else if cat[i].id != cat[j].id {
                cat[j].id < cat[i].id
            } else {
                i <= j
            }
        },
        SortKey::RecentDownloads => {
            match (cat[i].recent_downloads, cat[j].recent_downloads) {
                (Some(a), Some(b)) => {
                    if a != b {
                        b < a
                    } else if cat[i].id != cat[j].id {
                        cat[j].id < cat[i].id
                    } else {
                        i <= j
                    }
                },
                (Some(_), None) => true,
                (None, Some(_)) => false,
                (None, None) => {
                    if cat[i].id != cat[j].id {
                        cat[j].id < cat[i].id
                    } else {
                        i <= j
                    }
                },
            }
        },
        SortKey::RecentUpdates => {
            let di = cat[i].updated_at;
            let dj = cat[j].updated_at;
            if di != dj {
                dj < di
            } else if cat[i].id != cat[j].id {
                cat[j].id < cat[i].id
            } else {
                i <= j
            }
        },
        SortKey::New => {
            let di = cat[i].created_at;
            let dj = cat[j].created_at;
            if di != dj {
                dj < di
            } else if cat[i].id != cat[j].id {
                cat[j].id < cat[i].id
            } else {
                i <= j
            }
        },
        SortKey::Query => {
            let fi = flags[i];
            let fj = flags[j];
            if fi != fj {
                fi
            } else if crate::text::bytes_lt(&cat[i].name, &cat[j].name) {
                true
            } else if crate::text::bytes_eq(&cat[i].name, &cat[j].name) {
                i <= j
            } else {
                false
            }
        },
        SortKey::Relevance => {
            let fi = flags[i];
            let fj = flags[j];
            if fi != fj {
                fi
            } else if sc[i].rank != sc[j].rank {
                sc[j].rank < sc[i].rank
            } else if crate::text::bytes_lt(&cat[i].name, &cat[j].name) {
                true
            } else if crate::text::bytes_eq(&cat[i].name, &cat[j].name) {
                i <= j
            } else {
                false
            }
        },
    }
}

/// Sorts row indices by the order in effect (insertion sort; the engine
/// works on whole snapshots, not on an index).
pub fn sort_indices(
    cat: &Vec<CatalogItem>,
    sc: &Vec<TextScore>,
    flags: &Vec<bool>,
    k: SortKey,
    Ghost(req): Ghost<SearchRequest>,
    v: &mut Vec<usize>,
)
    requires
        sc@.len() == cat@.len(),
        flags@.len() == cat@.len(),
        forall|f: int| 0 <= f < flags@.len() ==> flags@[f] == spec_exact_match(req, cat@[f]),
        forall|t: int| 0 <= t < old(v)@.len() ==> (#[trigger] old(v)@[t]) < cat@.len(),
    ensures
        final(v)@.to_multiset() == old(v)@.to_multiset(),
        final(v)@.len() == old(v)@.len(),
        vstd::relations::sorted_by(final(v)@, row_order(cat@, sc@, req, k)),
        forall|t: int| 0 <= t < final(v)@.len() ==> (#[trigger] final(v)@[t]) < cat@.len(),
{
    let ghost leq = row_order(cat@, sc@, req, k);
    proof {
        lemma_row_order_total(cat@, sc@, req, k);
    }
    let n = v.len();
    let mut x: usize = 1;
    while x < n
        invariant
            1 <= x,
            n == 0 || x <= n,
            n == v@.len(),
            sc@.len() == cat@.len(),
            flags@.len() == cat@.len(),
            forall|f: int| 0 <= f < flags@.len() ==> flags@[f] == spec_exact_match(req, cat@[f]),
            leq == row_order(cat@, sc@, req, k),
            vstd::relations::total_ordering(leq),
            v@.to_multiset() == old(v)@.to_multiset(),
            forall|t: int| 0 <= t < v@.len() ==> (#[trigger] v@[t]) < cat@.len(),
            forall|a: int, b: int| 0 <= a <= b < x && b < n ==> leq(v@[a], v@[b]),
        decreases n - x,
    {
        let mut y: usize = x;
        while y > 0 && !row_le_exec(cat, sc, flags, k, Ghost(req), v[y - 1], v[y])
            invariant
                y <= x < n,
                n == v@.len(),
                sc@.len() == cat@.len(),
                flags@.len() == cat@.len(),
                forall|f: int|
                    0 <= f < flags@.len() ==> flags@[f] == spec_exact_match(req, cat@[f]),
                leq == row_order(cat@, sc@, req, k),
                vstd::relations::total_ordering(leq),
                v@.to_multiset() == old(v)@.to_multiset(),
                forall|t: int| 0 <= t < v@.len() ==> (#[trigger] v@[t]) < cat@.len(),
                forall|a: int, b: int|
                    0 <= a <= b <= x && a != y && b != y ==> leq(v@[a], v@[b]),
                forall|b: int| y < b <= x ==> leq(v@[y as int], v@[b]),
            decreases y,
        {
            let a = v[y - 1];
            let b = v[y];
            let ghost before = v@;
            v[y - 1] = b;
            v[y] = a;
            proof {
                assert(!leq(a, b));
                assert(leq(b, a));
                assert(v@ == before.update(y - 1, before[y as int]).update(y as int, before[y - 1]));
                lemma_swap_preserves_multiset(before, y - 1, y as int);
            }
            y = y - 1;
        }
        proof {
            if y > 0 {
                assert(leq(v@[y - 1], v@[y as int]));
                assert forall|a: int, b: int| 0 <= a <= b <= x implies leq(v@[a], v@[b]) by {
                    if a == y as int && b != y as int {
                        // covered by the moving-element invariant
                    } else if b == y as int && a != y as int {
                        assert(leq(v@[a], v@[y - 1]));
                    }
                }
            } else {
                assert forall|a: int, b: int| 0 <= a <= b <= x implies leq(v@[a], v@[b]) by {
                    if a == 0 && b != 0 {
                        assert(leq(v@[0], v@[b]));
                    }
                }
            }
        }
        x = x + 1;
    }
    proof {
        assert forall|a: int, b: int| 0 <= a < b < v@.len() implies leq(v@[a], v@[b]) by {}
    }
}

/// Swapping two positions of a sequence does not change its multiset.
proof fn lemma_swap_preserves_multiset(s: Seq<usize>, i: int, j: int)
    requires
        0 <= i < j < s.len(),
    ensures
        s.update(i, s[j]).update(j, s[i]).to_multiset() == s.to_multiset(),
{
    broadcast use vstd::seq_lib::lemma_multiset_commutative;
    broadcast use vstd::multiset::group_multiset_axioms;

    let t = s.update(i, s[j]).update(j, s[i]);
    let p1 = s.take(i);
    let m = s.subrange(i + 1, j);
    let p2 = s.skip(j + 1);
    assert(s =~= p1 + seq![s[i]] + m + seq![s[j]] + p2);
    assert(t =~= p1 + seq![s[j]] + m + seq![s[i]] + p2);
    assert((p1 + seq![s[i]] + m + seq![s[j]] + p2).to_multiset() =~= (p1 + seq![s[j]] + m + seq![
        s[i],
    ] + p2).to_multiset());
}

} // verus!
