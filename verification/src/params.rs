//! The recognized facets of a request and the predicate they compose to.
//!
//! Exactly one of the exclusive facets is honored per request, in a fixed
//! priority order; the text query is ANDed independently, and so is yank
//! visibility.
use vstd::prelude::*;

use crate::catalog::{CatalogItem, OwnerKind, TextScore, spec_has_unyanked, has_unyanked};
use crate::text::{
    canon, canon_bytes, is_prefix, lower, lower_bytes, spec_words, split_words, starts_with,
    bytes_eq, copy_bytes, remove_nul, strip_nul,
};

verus! {

/// One request to the search engine, as plain values. `page`, `per_page`
/// and `seek` stay raw byte strings: validating them is the engine's job.
pub struct SearchRequest {
    pub q: Option<Vec<u8>>,
    pub sort: Option<Vec<u8>>,
    pub category: Option<Vec<u8>>,
    pub all_keywords: Option<Vec<u8>>,
    pub keyword: Option<Vec<u8>>,
    pub letter: Option<Vec<u8>>,
    pub user_id: Option<i64>,
    pub team_id: Option<i64>,
    pub following: bool,
    pub ids: Option<Vec<Vec<u8>>>,
    pub include_yanked: bool,
    pub page: Option<Vec<u8>>,
    pub per_page: Option<Vec<u8>>,
    pub seek: Option<Vec<u8>>,
}

/// The exclusive facet a request is honored for.
#[derive(Clone, Copy, PartialEq, Eq, Structural, Debug)]
pub enum FacetKind {
    Ids,
    Category,
    AllKeywords,
    Keyword,
    Letter,
    User,
    Team,
    Following,
    Open,
}

/// Which exclusive facet is honored: the first present, in the priority
/// order id-list, category, keyword set, keyword, letter, user owner,
/// team owner, following. `Open` when none is present.
pub open spec fn spec_facet(req: SearchRequest) -> FacetKind {
    if req.ids is Some {
        FacetKind::Ids
    } else if req.category is Some {
        FacetKind::Category
    } else if req.all_keywords is Some {
        FacetKind::AllKeywords
    } else if req.keyword is Some {
        FacetKind::Keyword
    } else if req.letter is Some {
        FacetKind::Letter
    } else if req.user_id is Some {
        FacetKind::User
    } else if req.team_id is Some {
        FacetKind::Team
    } else if req.following {
        FacetKind::Following
    } else {
        FacetKind::Open
    }
}

pub fn facet_of(req: &SearchRequest) -> (r: FacetKind)
    ensures
        r == spec_facet(*req),
{
    if req.ids.is_some() {
        FacetKind::Ids
    } else if req.category.is_some() {
        FacetKind::Category
    } else if req.all_keywords.is_some() {
        FacetKind::AllKeywords
    } else if req.keyword.is_some() {
        FacetKind::Keyword
    } else if req.letter.is_some() {
        FacetKind::Letter
    } else if req.user_id.is_some() {
        FacetKind::User
    } else if req.team_id.is_some() {
        FacetKind::Team
    } else if req.following {
        FacetKind::Following
    } else {
        FacetKind::Open
    }
}

/// The effective text query: the raw value with zero bytes removed, empty
/// when absent.
pub open spec fn spec_query(req: SearchRequest) -> Seq<u8> {
    match req.q {
        Option::Some(v) => strip_nul(v@),
        Option::None => Seq::empty(),
    }
}

/// A request carries a text query when the effective query is non-empty.
pub open spec fn spec_has_query(req: SearchRequest) -> bool {
    spec_query(req).len() > 0
}

/// An item's name is an exact match of the query when the canonical forms
/// agree.
pub open spec fn spec_exact_match(req: SearchRequest, item: CatalogItem) -> bool {
    spec_has_query(req) && canon_bytes(item.name@) == canon_bytes(spec_query(req))
}

/// The text condition: the scoring oracle matched the item, or the
/// canonical name starts with the canonical query.
pub open spec fn spec_text_match(req: SearchRequest, item: CatalogItem, score: TextScore) -> bool {
    spec_has_query(req) ==> (score.matched || is_prefix(
        canon_bytes(spec_query(req)),
        canon_bytes(item.name@),
    ))
}

/// An item carries keyword `kw`, case-insensitively.
pub open spec fn spec_has_keyword(item: CatalogItem, kw: Seq<u8>) -> bool {
    exists|k: int|
        0 <= k < item.keywords@.len() && lower_bytes((#[trigger] item.keywords@[k])@) == lower_bytes(
            kw,
        )
}

/// An item is in category `cat` or one of its subcategories: some slug of
/// the item equals `cat` or starts with `cat` followed by `::`.
pub open spec fn spec_in_category(item: CatalogItem, cat: Seq<u8>) -> bool {
    exists|k: int|
        0 <= k < item.categories@.len() && ((#[trigger] item.categories@[k])@ == cat || is_prefix(
            cat + seq![58u8, 58u8],
            item.categories@[k]@,
        ))
}

/// An item has a live owner record of the given kind and id.
pub open spec fn spec_has_owner(item: CatalogItem, kind: OwnerKind, id: i64) -> bool {
    exists|k: int|
        0 <= k < item.owners@.len() && (#[trigger] item.owners@[k]).kind == kind
            && item.owners@[k].owner_id == id && !item.owners@[k].deleted
}

pub open spec fn spec_followed_by(item: CatalogItem, uid: i64) -> bool {
    exists|k: int| 0 <= k < item.followers@.len() && #[trigger] item.followers@[k] == uid
}

/// Some name of the id list equals the item's name.
pub open spec fn spec_in_id_list(item: CatalogItem, ids: Seq<Vec<u8>>) -> bool {
    exists|k: int| 0 <= k < ids.len() && (#[trigger] ids[k])@ == item.name@
}

/// The honored facet's own condition on one item. The letter facet reads
/// the first byte of the (non-empty) letter value, case-folded, against
/// the first byte of the canonical name; `following` reads the
/// authenticated identity.
pub open spec fn spec_facet_match(req: SearchRequest, ident: Option<i64>, item: CatalogItem) -> bool {
    match spec_facet(req) {
        FacetKind::Ids => spec_in_id_list(item, req.ids.unwrap()@),
        FacetKind::Category => spec_in_category(item, req.category.unwrap()@),
        FacetKind::AllKeywords => {
            let words = spec_words(lower_bytes(req.all_keywords.unwrap()@));
            forall|k: int| 0 <= k < words.len() ==> spec_has_keyword(item, #[trigger] words[k])
        },
        FacetKind::Keyword => spec_has_keyword(item, req.keyword.unwrap()@),
        FacetKind::Letter => {
            let l = req.letter.unwrap()@;
            l.len() > 0 && item.name@.len() > 0 && canon_bytes(item.name@)[0] == crate::text::lower_byte(
                l[0],
            )
        },
        FacetKind::User => spec_has_owner(item, OwnerKind::User, req.user_id.unwrap()),
        FacetKind::Team => spec_has_owner(item, OwnerKind::Team, req.team_id.unwrap()),
        FacetKind::Following => ident matches Some(uid) && spec_followed_by(item, uid),
        FacetKind::Open => true,
    }
}

/// The composed predicate: the honored facet, the text condition, and,
/// unless yanked versions are included, the existence of a non-yanked
/// version.
pub open spec fn spec_matches(
    req: SearchRequest,
    ident: Option<i64>,
    item: CatalogItem,
    score: TextScore,
) -> bool {
    spec_facet_match(req, ident, item) && spec_text_match(req, item, score) && (req.include_yanked
        || spec_has_unyanked(item.versions@))
}

} // verus!

verus! {

fn in_id_list(item: &CatalogItem, ids: &Vec<Vec<u8>>) -> (r: bool)
    ensures
        r == spec_in_id_list(*item, ids@),
{
    let mut k: usize = 0;
    while k < ids.len()
        invariant
            k <= ids.len(),
            forall|j: int| 0 <= j < k ==> (#[trigger] ids@[j])@ != item.name@,
        decreases ids.len() - k,
    {
        if bytes_eq(&ids[k], &item.name) {
            return true;
        }
        k = k + 1;
    }
    false
}

fn in_category(item: &CatalogItem, cat: &Vec<u8>) -> (r: bool)
    ensures
        r == spec_in_category(*item, cat@),
{
    let mut sub = copy_bytes(cat);
    sub.push(58);
    sub.push(58);
    assert(sub@ =~= cat@ + seq![58u8, 58u8]);
    let mut k: usize = 0;
    while k < item.categories.len()
        invariant
            k <= item.categories.len(),
            sub@ == cat@ + seq![58u8, 58u8],
            forall|j: int|
                0 <= j < k ==> !((#[trigger] item.categories@[j])@ == cat@ || is_prefix(
                    cat@ + seq![58u8, 58u8],
                    item.categories@[j]@,
                )),
        decreases item.categories.len() - k,
    {
        if bytes_eq(&item.categories[k], cat) || starts_with(&item.categories[k], &sub) {
            return true;
        }
        k = k + 1;
    }
    false
}

fn has_keyword(item: &CatalogItem, kw: &Vec<u8>) -> (r: bool)
    ensures
        r == spec_has_keyword(*item, kw@),
{
    let kwl = lower(kw);
    let mut k: usize = 0;
    while k < item.keywords.len()
        invariant
            k <= item.keywords.len(),
            kwl@ == lower_bytes(kw@),
            forall|j: int|
                0 <= j < k ==> lower_bytes((#[trigger] item.keywords@[j])@) != lower_bytes(kw@),
        decreases item.keywords.len() - k,
    {
        let cur = lower(&item.keywords[k]);
        if bytes_eq(&cur, &kwl) {
            return true;
        }
        k = k + 1;
    }
    false
}

fn has_owner(item: &CatalogItem, kind: OwnerKind, id: i64) -> (r: bool)
    ensures
        r == spec_has_owner(*item, kind, id),
{
    let mut k: usize = 0;
    while k < item.owners.len()
        invariant
            k <= item.owners.len(),
            forall|j: int|
                0 <= j < k ==> !((#[trigger] item.owners@[j]).kind == kind && item.owners@[j].owner_id
                    == id && !item.owners@[j].deleted),
        decreases item.owners.len() - k,
    {
        let o = item.owners[k];
        if o.owner_id == id && !o.deleted && o.kind == kind {
            return true;
        }
        k = k + 1;
    }
    false
}

fn followed_by(item: &CatalogItem, uid: i64) -> (r: bool)
    ensures
        r == spec_followed_by(*item, uid),
{
    let mut k: usize = 0;
    while k < item.followers.len()
        invariant
            k <= item.followers.len(),
            forall|j: int| 0 <= j < k ==> #[trigger] item.followers@[j] != uid,
        decreases item.followers.len() - k,
    {
        if item.followers[k] == uid {
            return true;
        }
        k = k + 1;
    }
    false
}

/// The honored facet's condition, executably.
fn facet_match(req: &SearchRequest, ident: Option<i64>, item: &CatalogItem) -> (r: bool)
    ensures
        r == spec_facet_match(*req, ident, *item),
{
    let facet = facet_of(req);
    match facet {
        FacetKind::Ids => match &req.ids {
            Some(l) => in_id_list(item, l),
            None => false,
        },
        FacetKind::Category => match &req.category {
            Some(c) => in_category(item, c),
            None => false,
        },
        FacetKind::AllKeywords => match &req.all_keywords {
            Some(a) => {
                let low = lower(a);
                let words = split_words(&low);
                let ghost target = spec_words(lower_bytes(a@));
                let mut k: usize = 0;
                let mut ok = true;
                while k < words.len() && ok
                    invariant
                        k <= words.len(),
                        words@.len() == target.len(),
                        forall|j: int| 0 <= j < words@.len() ==> (#[trigger] words@[j])@
                            == target[j],
                        ok ==> forall|j: int|
                            0 <= j < k ==> spec_has_keyword(*item, #[trigger] target[j]),
                        !ok ==> exists|j: int|
                            0 <= j < target.len() && !spec_has_keyword(
                                *item,
                                #[trigger] target[j],
                            ),
                    decreases words.len() - k,
                {
                    if !has_keyword(item, &words[k]) {
                        assert(!spec_has_keyword(*item, target[k as int]));
                        ok = false;
                    }
                    k = k + 1;
                }
                ok
            },
            None => false,
        },
        FacetKind::Keyword => match &req.keyword {
            Some(l) => has_keyword(item, l),
            None => false,
        },
        FacetKind::Letter => match &req.letter {
            Some(l) => {
                if l.len() == 0 || item.name.len() == 0 {
                    false
                } else {
                    let r = crate::text::canon_byte_exec(item.name[0])
                        == crate::text::lower_byte_exec(l[0]);
                    proof {
                        assert(canon_bytes(item.name@)[0] == crate::text::canon_byte(
                            item.name@[0],
                        ));
                    }
                    r
                }
            },
            None => false,
        },
        FacetKind::User => match req.user_id {
            Some(uid) => has_owner(item, OwnerKind::User, uid),
            None => false,
        },
        FacetKind::Team => match req.team_id {
            Some(tid) => has_owner(item, OwnerKind::Team, tid),
            None => false,
        },
        FacetKind::Following => match ident {
            Some(uid) => followed_by(item, uid),
            None => false,
        },
        FacetKind::Open => true,
    }
}

/// The composed predicate on one item, given the oracle's verdict for it.
pub fn item_matches(
    req: &SearchRequest,
    ident: Option<i64>,
    item: &CatalogItem,
    score: &TextScore,
) -> (r: bool)
    ensures
        r == spec_matches(*req, ident, *item, *score),
{
    let fm = facet_match(req, ident, item);
    let tm = match &req.q {
        Some(raw) => {
            let clean = remove_nul(raw);
            if clean.len() == 0 {
                true
            } else {
                if score.matched {
                    true
                } else {
                    let qc = canon(&clean);
                    let nc = canon(&item.name);
                    starts_with(&nc, &qc)
                }
            }
        },
        None => true,
    };
    let ym = req.include_yanked || has_unyanked(&item.versions);
    fm && tm && ym
}

/// The exact-match flag of one item: there is a text query and the
/// canonical name equals the canonical query.
pub fn exact_match(req: &SearchRequest, item: &CatalogItem) -> (r: bool)
    ensures
        r == spec_exact_match(*req, *item),
{
    match &req.q {
        Some(raw) => {
            let clean = remove_nul(raw);
            if clean.len() == 0 {
                false
            } else {
                let qc = canon(&clean);
                let nc = canon(&item.name);
                bytes_eq(&nc, &qc)
            }
        },
        None => false,
    }
}

} // verus!
