//! The data model of the catalog: items, their versions, owners and
//! followers, together with the well-formedness conditions the search engine
//! relies on and the per-item version summaries it reports.
use vstd::prelude::*;

verus! {

/// One published version of a catalog item, reduced to what the engine
/// reads: the numeric release triple, whether it is a pre-release, and
/// whether it has been yanked.
#[derive(Clone, Copy, PartialEq, Eq, Structural, Debug)]
pub struct VersionInfo {
    pub major: u64,
    pub minor: u64,
    pub patch: u64,
    pub prerelease: bool,
    pub yanked: bool,
}

/// Strict order on versions: by release triple, and a pre-release comes
/// before the release with the same triple.
pub open spec fn version_lt(a: VersionInfo, b: VersionInfo) -> bool {
    if a.major != b.major {
        a.major < b.major
    } else if a.minor != b.minor {
        a.minor < b.minor
    } else if a.patch != b.patch {
        a.patch < b.patch
    } else {
        a.prerelease && !b.prerelease
    }
}

/// The highest version of `vs` that is not yanked, restricted to
/// non-pre-release versions when `stable_only` is set. Among equal versions
/// the earliest in `vs` is kept.
pub open spec fn spec_top_version(vs: Seq<VersionInfo>, stable_only: bool) -> Option<VersionInfo>
    decreases vs.len(),
{
    if vs.len() == 0 {
        None
    } else {
        let rest = spec_top_version(vs.drop_last(), stable_only);
        let v = vs.last();
        if v.yanked || (stable_only && v.prerelease) {
            rest
        } else {
            match rest {
                None => Some(v),
                Some(m) => if version_lt(m, v) {
                    Some(v)
                } else {
                    Some(m)
                },
            }
        }
    }
}

fn version_lt_exec(a: &VersionInfo, b: &VersionInfo) -> (r: bool)
    ensures
        r == version_lt(*a, *b),
{
    if a.major != b.major {
        a.major < b.major
    } else if a.minor != b.minor {
        a.minor < b.minor
    } else if a.patch != b.patch {
        a.patch < b.patch
    } else {
        a.prerelease && !b.prerelease
    }
}

/// The highest non-yanked version, `stable_only` restricting the choice to
/// non-pre-release versions.
pub fn top_version(vs: &Vec<VersionInfo>, stable_only: bool) -> (r: Option<VersionInfo>)
    ensures
        r == spec_top_version(vs@, stable_only),
{
    let mut best: Option<VersionInfo> = None;
    let mut i: usize = 0;
    while i < vs.len()
        invariant
            i <= vs.len(),
            best == spec_top_version(vs@.take(i as int), stable_only),
        decreases vs.len() - i,
    {
        let v = vs[i];
        proof {
            assert(vs@.take(i as int + 1).drop_last() =~= vs@.take(i as int));
            assert(vs@.take(i as int + 1).last() == vs@[i as int]);
        }
        if !(v.yanked || (stable_only && v.prerelease)) {
            match best {
                None => {
                    best = Some(v);
                },
                Some(m) => {
                    if version_lt_exec(&m, &v) {
                        best = Some(v);
                    }
                },
            }
        }
        i = i + 1;
    }
    proof {
        assert(vs@.take(vs@.len() as int) =~= vs@);
    }
    best
}

/// Whether at least one version of the item is not yanked.
pub open spec fn spec_has_unyanked(vs: Seq<VersionInfo>) -> bool {
    exists|k: int| 0 <= k < vs.len() && !(#[trigger] vs[k]).yanked
}

pub fn has_unyanked(vs: &Vec<VersionInfo>) -> (r: bool)
    ensures
        r == spec_has_unyanked(vs@),
{
    let mut i: usize = 0;
    while i < vs.len()
        invariant
            i <= vs.len(),
            forall|k: int| 0 <= k < i ==> (#[trigger] vs@[k]).yanked,
        decreases vs.len() - i,
    {
        if !vs[i].yanked {
            return true;
        }
        i = i + 1;
    }
    false
}

/// The kind of a registered owner of an item.
#[derive(Clone, Copy, PartialEq, Eq, Structural, Debug)]
pub enum OwnerKind {
    User,
    Team,
}

/// One ownership record of an item. Records of removed owners stay with
/// `deleted` set and no longer count for the owner facets.
#[derive(Clone, Copy, PartialEq, Eq, Structural, Debug)]
pub struct OwnerRef {
    pub owner_id: i64,
    pub kind: OwnerKind,
    pub deleted: bool,
}

/// One item of the catalog, as the engine reads it: identity and name,
/// creation and update times (microseconds), download counts, the yank
/// state of its versions, and the facet data (keywords, category slugs,
/// owners, followers).
pub struct CatalogItem {
    pub id: i64,
    pub name: Vec<u8>,
    pub created_at: i64,
    pub updated_at: i64,
    pub downloads: i64,
    pub recent_downloads: Option<i64>,
    pub versions: Vec<VersionInfo>,
    pub keywords: Vec<Vec<u8>>,
    pub categories: Vec<Vec<u8>>,
    pub owners: Vec<OwnerRef>,
    pub followers: Vec<i64>,
}

/// A catalog is well formed when ids and names are unique.
pub open spec fn catalog_wf(cat: Seq<CatalogItem>) -> bool {
    forall|i: int, j: int|
        0 <= i < cat.len() && 0 <= j < cat.len() && i != j ==> (#[trigger] cat[i]).id != (
        #[trigger] cat[j]).id && cat[i].name@ != cat[j].name@
}

/// The verdict of the scoring oracle on one item for the current text
/// query: whether the item's indexed text matches the query, and the
/// relevance rank the oracle assigned.
#[derive(Clone, Copy, PartialEq, Eq, Structural, Debug)]
pub struct TextScore {
    pub matched: bool,
    pub rank: i64,
}

/// The name of the item with the given id, if any.
pub open spec fn spec_name_of_id(cat: Seq<CatalogItem>, id: i64) -> Option<Seq<u8>> {
    if exists|j: int| 0 <= j < cat.len() && (#[trigger] cat[j]).id == id {
        let j = choose|j: int| 0 <= j < cat.len() && (#[trigger] cat[j]).id == id;
        Some(cat[j].name@)
    } else {
        None
    }
}

/// Index of the item with the given id.
pub fn find_by_id(cat: &Vec<CatalogItem>, id: i64) -> (r: Option<usize>)
    requires
        catalog_wf(cat@),
    ensures
        match r {
            Some(j) => j < cat@.len() && cat@[j as int].id == id && spec_name_of_id(cat@, id)
                == Some(cat@[j as int].name@),
            None => spec_name_of_id(cat@, id) is None,
        },
{
    let mut i: usize = 0;
    while i < cat.len()
        invariant
            i <= cat.len(),
            catalog_wf(cat@),
            forall|k: int| 0 <= k < i ==> (#[trigger] cat@[k]).id != id,
        decreases cat.len() - i,
    {
        if cat[i].id == id {
            proof {
                assert(exists|j: int| 0 <= j < cat@.len() && (#[trigger] cat@[j]).id == id);
                let j = choose|j: int| 0 <= j < cat@.len() && (#[trigger] cat@[j]).id == id;
                if j != i as int {
                    assert((cat@[j]).id != (cat@[i as int]).id);
                }
                assert(j == i as int);
            }
            return Some(i);
        }
        i = i + 1;
    }
    None
}

} // verus!
