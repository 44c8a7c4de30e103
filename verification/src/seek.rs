//! The continuation-token codec. A token is the resume tuple of the last
//! row of a page, serialized as a tag byte followed by fixed-width
//! hexadecimal fields: opaque, URL-safe ASCII. Decoding rejects tokens of
//! another ordering and malformed input as `BadSeekToken`.
use vstd::prelude::*;

use crate::catalog::CatalogItem;
use crate::errors::SearchError;
use crate::sort::SortKey;

verus! {

/// The resume tuple of one concrete row, under the ordering the token was
/// issued for. A payload is only meaningful under the matching `SortKey`.
#[derive(Clone, Copy, PartialEq, Eq, Debug)]
pub enum SeekPayload {
    Name { id: i64 },
    New { created_at: i64, id: i64 },
    RecentUpdates { updated_at: i64, id: i64 },
    RecentDownloads { recent_downloads: Option<i64>, id: i64 },
    Downloads { downloads: i64, id: i64 },
    Query { exact: bool, id: i64 },
    Relevance { exact: bool, rank: i64, id: i64 },
}

/// The ordering a payload belongs to.
pub open spec fn spec_payload_key(p: SeekPayload) -> SortKey {
    match p {
        SeekPayload::Name { .. } => SortKey::Name,
        SeekPayload::New { .. } => SortKey::New,
        SeekPayload::RecentUpdates { .. } => SortKey::RecentUpdates,
        SeekPayload::RecentDownloads { .. } => SortKey::RecentDownloads,
        SeekPayload::Downloads { .. } => SortKey::Downloads,
        SeekPayload::Query { .. } => SortKey::Query,
        SeekPayload::Relevance { .. } => SortKey::Relevance,
    }
}

/// The resume tuple of a row: the fields of the active ordering, taken
/// from the row's item, exact-match flag and rank.
pub open spec fn spec_to_payload(k: SortKey, item: CatalogItem, exact: bool, rank: i64) -> SeekPayload {
    match k {
        SortKey::Name => SeekPayload::Name { id: item.id },
        SortKey::New => SeekPayload::New { created_at: item.created_at, id: item.id },
        SortKey::RecentUpdates => SeekPayload::RecentUpdates {
            updated_at: item.updated_at,
            id: item.id,
        },
        SortKey::RecentDownloads => SeekPayload::RecentDownloads {
            recent_downloads: item.recent_downloads,
            id: item.id,
        },
        SortKey::Downloads => SeekPayload::Downloads { downloads: item.downloads, id: item.id },
        SortKey::Query => SeekPayload::Query { exact, id: item.id },
        SortKey::Relevance => SeekPayload::Relevance { exact, rank, id: item.id },
    }
}

/// Builds the resume tuple of a returned row, for the next-page token.
pub fn to_payload(k: SortKey, item: &CatalogItem, exact: bool, rank: i64) -> (r: SeekPayload)
    ensures
        r == spec_to_payload(k, *item, exact, rank),
        spec_payload_key(r) == k,
{
    match k {
        SortKey::Name => SeekPayload::Name { id: item.id },
        SortKey::New => SeekPayload::New { created_at: item.created_at, id: item.id },
        SortKey::RecentUpdates => SeekPayload::RecentUpdates {
            updated_at: item.updated_at,
            id: item.id,
        },
        SortKey::RecentDownloads => SeekPayload::RecentDownloads {
            recent_downloads: item.recent_downloads,
            id: item.id,
        },
        SortKey::Downloads => SeekPayload::Downloads { downloads: item.downloads, id: item.id },
        SortKey::Query => SeekPayload::Query { exact, id: item.id },
        SortKey::Relevance => SeekPayload::Relevance { exact, rank, id: item.id },
    }
}

// ---------------------------------------------------------------------
// Hexadecimal fields
// ---------------------------------------------------------------------
/// 16 to the `k`.
pub open spec fn pow16(k: nat) -> nat
    decreases k,
{
    if k == 0 {
        1
    } else {
        16 * pow16((k - 1) as nat)
    }
}

pub proof fn lemma_pow16_16()
    ensures
        pow16(16) == 0x10000000000000000,
{
    reveal_with_fuel(pow16, 17);
}

/// The hex digit of a value below 16: `0`..`9`, then `a`..`f`.
pub open spec fn hex_digit(d: u8) -> u8 {
    if d < 10 {
        (48 + d) as u8
    } else {
        (87 + d) as u8
    }
}

/// The value of a hex digit byte.
pub open spec fn unhex_digit(b: u8) -> Option<u8> {
    if 48 <= b && b <= 57 {
        Some((b - 48) as u8)
    } else if 97 <= b && b <= 102 {
        Some((b - 87) as u8)
    } else {
        None
    }
}

/// `k` hex digits of `v`, least significant first.
pub open spec fn spec_hex_nat(v: nat, k: nat) -> Seq<u8>
    decreases k,
{
    if k == 0 {
        Seq::empty()
    } else {
        seq![hex_digit((v % 16) as u8)] + spec_hex_nat(v / 16, (k - 1) as nat)
    }
}

/// The value of a string of hex digits, least significant first; `None`
/// on any non-digit.
pub open spec fn spec_unhex_nat(s: Seq<u8>) -> Option<nat>
    decreases s.len(),
{
    if s.len() == 0 {
        Some(0)
    } else {
        match unhex_digit(s[0]) {
            Option::None => None,
            Option::Some(d) => match spec_unhex_nat(s.drop_first()) {
                Option::None => None,
                Option::Some(r) => Some((d + 16 * r) as nat),
            },
        }
    }
}

pub proof fn lemma_hex_nat_len(v: nat, k: nat)
    ensures
        spec_hex_nat(v, k).len() == k,
    decreases k,
{
    if k > 0 {
        lemma_hex_nat_len(v / 16, (k - 1) as nat);
    }
}

/// Reading back the hex digits of `v` gives `v`.
pub proof fn lemma_hex_roundtrip(v: nat, k: nat)
    requires
        v < pow16(k),
    ensures
        spec_unhex_nat(spec_hex_nat(v, k)) == Some(v),
    decreases k,
{
    if k == 0 {
        assert(v == 0);
    } else {
        let d = (v % 16) as u8;
        assert(unhex_digit(hex_digit(d)) == Some(d));
        assert(v / 16 < pow16((k - 1) as nat)) by (nonlinear_arith)
            requires
                v < pow16(k),
                pow16(k) == 16 * pow16((k - 1) as nat),
        ;
        lemma_hex_roundtrip(v / 16, (k - 1) as nat);
        let s = spec_hex_nat(v, k);
        assert(s.drop_first() =~= spec_hex_nat(v / 16, (k - 1) as nat));
        vstd::arithmetic::div_mod::lemma_fundamental_div_mod(v as int, 16);
    }
}

/// Appends the 16 hex digits of `v`, least significant first.
fn push_hex64(out: &mut Vec<u8>, v: u64)
    ensures
        final(out)@ == old(out)@ + spec_hex_nat(v as nat, 16),
{
    let mut cur: u64 = v;
    let mut k: usize = 0;
    while k < 16
        invariant
            k <= 16,
            old(out)@ + spec_hex_nat(v as nat, 16) =~= out@ + spec_hex_nat(
                cur as nat,
                (16 - k) as nat,
            ),
        decreases 16 - k,
    {
        let d: u8 = (cur % 16) as u8;
        let b: u8 = if d < 10 {
            48 + d
        } else {
            87 + d
        };
        assert(b == hex_digit(d));
        proof {
            assert(spec_hex_nat(cur as nat, (16 - k) as nat) =~= seq![hex_digit(
                ((cur as nat) % 16) as u8,
            )] + spec_hex_nat((cur as nat) / 16, (15 - k) as nat));
        }
        out.push(b);
        cur = cur / 16;
        k = k + 1;
        assert(old(out)@ + spec_hex_nat(v as nat, 16) =~= out@ + spec_hex_nat(
            cur as nat,
            (16 - k) as nat,
        ));
    }
    assert(spec_hex_nat(cur as nat, 0) =~= Seq::<u8>::empty());
    assert(out@ + Seq::<u8>::empty() =~= out@);
}

/// Reads the 16 hex digits starting at `start`, least significant first.
fn parse_hex64(s: &Vec<u8>, start: usize) -> (r: Option<u64>)
    requires
        start + 16 <= s@.len(),
    ensures
        match r {
            Option::Some(x) => spec_unhex_nat(s@.subrange(start as int, start as int + 16))
                == Some(x as nat),
            Option::None => spec_unhex_nat(s@.subrange(start as int, start as int + 16)) is None,
        },
{
    let ghost whole = s@.subrange(start as int, start as int + 16);
    let mut acc: u64 = 0;
    let mut j: usize = 16;
    while j > 0
        invariant
            j <= 16,
            start + 16 <= s@.len(),
            whole == s@.subrange(start as int, start as int + 16),
            spec_unhex_nat(whole.skip(j as int)) == Some(acc as nat),
            acc < pow16((16 - j) as nat),
        decreases j,
    {
        let n: usize = s.len();
        assert(start + j <= n);
        let idx: usize = start + (j - 1);
        let b = s[idx];
        assert(b == whole[j - 1]);
        let d: u8 = if 48 <= b && b <= 57 {
            b - 48
        } else if 97 <= b && b <= 102 {
            b - 87
        } else {
            proof {
                assert(whole.skip(j as int - 1)[0] == whole[j - 1]);
                assert(unhex_digit(whole[j - 1]) is None);
                lemma_unhex_none(whole, j as int - 1);
            }
            return None;
        };
        assert(unhex_digit(b) == Some(d));
        proof {
            lemma_pow16_16();
            lemma_pow16_increases((16 - j) as nat, 15);
            assert(acc as nat * 16 + d < pow16((17 - j) as nat)) by (nonlinear_arith)
                requires
                    acc < pow16((16 - j) as nat),
                    d < 16,
                    pow16((17 - j) as nat) == 16 * pow16((16 - j) as nat),
            ;
            assert(pow16((17 - j) as nat) <= pow16(16)) by {
                lemma_pow16_increases((17 - j) as nat, 16);
            }
        }
        let new_acc: u64 = acc * 16 + (d as u64);
        proof {
            assert(whole.skip(j as int - 1) =~= seq![whole[j - 1]] + whole.skip(j as int));
            assert(whole.skip(j as int - 1).drop_first() =~= whole.skip(j as int));
            assert(spec_unhex_nat(whole.skip(j as int - 1)) == Some(
                (d + 16 * (acc as nat)) as nat,
            ));
        }
        acc = new_acc;
        j = j - 1;
    }
    assert(whole.skip(0) =~= whole);
    Some(acc)
}

/// A non-digit anywhere makes the whole string unreadable.
proof fn lemma_unhex_none(s: Seq<u8>, i: int)
    requires
        0 <= i < s.len(),
        unhex_digit(s[i]) is None,
    ensures
        spec_unhex_nat(s) is None,
    decreases s.len(),
{
    if i > 0 {
        lemma_unhex_none(s.drop_first(), i - 1);
    }
}

pub proof fn lemma_pow16_increases(a: nat, b: nat)
    requires
        a <= b,
    ensures
        pow16(a) <= pow16(b),
    decreases b,
{
    if a < b {
        lemma_pow16_increases(a, (b - 1) as nat);
        assert(pow16(b) == 16 * pow16((b - 1) as nat));
        assert(pow16(a) >= 0);
    }
}

} // verus!

verus! {

// ---------------------------------------------------------------------
// Tokens
// ---------------------------------------------------------------------
/// The tag byte of each ordering: `n`, `c`, `u`, `r`, `d`, `q`, `v`.
pub open spec fn spec_tag(k: SortKey) -> u8 {
    match k {
        SortKey::Name => 110,
        SortKey::New => 99,
        SortKey::RecentUpdates => 117,
        SortKey::RecentDownloads => 114,
        SortKey::Downloads => 100,
        SortKey::Query => 113,
        SortKey::Relevance => 118,
    }
}

/// `0` or `1`.
pub open spec fn bool_byte(b: bool) -> u8 {
    if b {
        49
    } else {
        48
    }
}

/// A signed field is serialized through its 64-bit two's-complement
/// pattern.
pub open spec fn hex_i64(x: i64) -> Seq<u8> {
    spec_hex_nat((x as u64) as nat, 16)
}

/// The token bytes of a payload.
pub open spec fn spec_encode(p: SeekPayload) -> Seq<u8> {
    match p {
        SeekPayload::Name { id } => seq![spec_tag(SortKey::Name)] + hex_i64(id),
        SeekPayload::New { created_at, id } => seq![spec_tag(SortKey::New)] + hex_i64(created_at)
            + hex_i64(id),
        SeekPayload::RecentUpdates { updated_at, id } => seq![spec_tag(SortKey::RecentUpdates)]
            + hex_i64(updated_at) + hex_i64(id),
        SeekPayload::RecentDownloads { recent_downloads, id } => match recent_downloads {
            Option::None => seq![spec_tag(SortKey::RecentDownloads), 48u8] + hex_i64(id),
            Option::Some(d) => seq![spec_tag(SortKey::RecentDownloads), 49u8] + hex_i64(d)
                + hex_i64(id),
        },
        SeekPayload::Downloads { downloads, id } => seq![spec_tag(SortKey::Downloads)] + hex_i64(
            downloads,
        ) + hex_i64(id),
        SeekPayload::Query { exact, id } => seq![spec_tag(SortKey::Query), bool_byte(exact)]
            + hex_i64(id),
        SeekPayload::Relevance { exact, rank, id } => seq![spec_tag(SortKey::Relevance), bool_byte(
            exact,
        )] + hex_i64(rank) + hex_i64(id),
    }
}

/// The field starting at `at`, read back as an `i64`, if it is 16 hex
/// digits.
pub open spec fn spec_field_i64(s: Seq<u8>, at: int) -> Option<i64> {
    match spec_unhex_nat(s.subrange(at, at + 16)) {
        Option::None => None,
        Option::Some(v) => Some((v as u64) as i64),
    }
}

/// What a token means under the ordering in effect: the payload, or
/// nothing when the token is malformed or was issued for another
/// ordering.
pub open spec fn spec_decode(s: Seq<u8>, k: SortKey) -> Option<SeekPayload> {
    if s.len() < 1 || s[0] != spec_tag(k) {
        None
    } else {
        match k {
            SortKey::Name => if s.len() == 17 {
                match spec_field_i64(s, 1) {
                    Option::Some(id) => Some(SeekPayload::Name { id }),
                    Option::None => None,
                }
            } else {
                None
            },
            SortKey::New => if s.len() == 33 {
                match (spec_field_i64(s, 1), spec_field_i64(s, 17)) {
                    (Option::Some(created_at), Option::Some(id)) => Some(
                        SeekPayload::New { created_at, id },
                    ),
                    _ => None,
                }
            } else {
                None
            },
            SortKey::RecentUpdates => if s.len() == 33 {
                match (spec_field_i64(s, 1), spec_field_i64(s, 17)) {
                    (Option::Some(updated_at), Option::Some(id)) => Some(
                        SeekPayload::RecentUpdates { updated_at, id },
                    ),
                    _ => None,
                }
            } else {
                None
            },
            SortKey::RecentDownloads => if s.len() == 18 && s[1] == 48 {
                match spec_field_i64(s, 2) {
                    Option::Some(id) => Some(
                        SeekPayload::RecentDownloads { recent_downloads: Option::None, id },
                    ),
                    Option::None => None,
                }
            } else if s.len() == 34 && s[1] == 49 {
                match (spec_field_i64(s, 2), spec_field_i64(s, 18)) {
                    (Option::Some(d), Option::Some(id)) => Some(
                        SeekPayload::RecentDownloads {
                            recent_downloads: Option::Some(d),
                            id,
                        },
                    ),
                    _ => None,
                }
            } else {
                None
            },
            SortKey::Downloads => if s.len() == 33 {
                match (spec_field_i64(s, 1), spec_field_i64(s, 17)) {
                    (Option::Some(downloads), Option::Some(id)) => Some(
                        SeekPayload::Downloads { downloads, id },
                    ),
                    _ => None,
                }
            } else {
                None
            },
            SortKey::Query => if s.len() == 18 && (s[1] == 48 || s[1] == 49) {
                match spec_field_i64(s, 2) {
                    Option::Some(id) => Some(SeekPayload::Query { exact: s[1] == 49, id }),
                    Option::None => None,
                }
            } else {
                None
            },
            SortKey::Relevance => if s.len() == 34 && (s[1] == 48 || s[1] == 49) {
                match (spec_field_i64(s, 2), spec_field_i64(s, 18)) {
                    (Option::Some(rank), Option::Some(id)) => Some(
                        SeekPayload::Relevance { exact: s[1] == 49, rank, id },
                    ),
                    _ => None,
                }
            } else {
                None
            },
        }
    }
}

fn tag_byte(k: SortKey) -> (r: u8)
    ensures
        r == spec_tag(k),
{
    match k {
        SortKey::Name => 110,
        SortKey::New => 99,
        SortKey::RecentUpdates => 117,
        SortKey::RecentDownloads => 114,
        SortKey::Downloads => 100,
        SortKey::Query => 113,
        SortKey::Relevance => 118,
    }
}

fn push_field_i64(out: &mut Vec<u8>, x: i64)
    ensures
        final(out)@ == old(out)@ + hex_i64(x),
{
    push_hex64(out, x as u64);
}

/// Serializes the resume tuple as an opaque, URL-safe ASCII token.
pub fn encode(p: &SeekPayload) -> (r: Vec<u8>)
    ensures
        r@ == spec_encode(*p),
{
    let mut out: Vec<u8> = Vec::new();
    match p {
        SeekPayload::Name { id } => {
            out.push(110);
            push_field_i64(&mut out, *id);
        },
        SeekPayload::New { created_at, id } => {
            out.push(99);
            push_field_i64(&mut out, *created_at);
            push_field_i64(&mut out, *id);
        },
        SeekPayload::RecentUpdates { updated_at, id } => {
            out.push(117);
            push_field_i64(&mut out, *updated_at);
            push_field_i64(&mut out, *id);
        },
        SeekPayload::RecentDownloads { recent_downloads, id } => {
            out.push(114);
            match recent_downloads {
                None => {
                    out.push(48);
                },
                Some(d) => {
                    out.push(49);
                    push_field_i64(&mut out, *d);
                },
            }
            push_field_i64(&mut out, *id);
        },
        SeekPayload::Downloads { downloads, id } => {
            out.push(100);
            push_field_i64(&mut out, *downloads);
            push_field_i64(&mut out, *id);
        },
        SeekPayload::Query { exact, id } => {
            out.push(113);
            out.push(if *exact {
                49
            } else {
                48
            });
            push_field_i64(&mut out, *id);
        },
        SeekPayload::Relevance { exact, rank, id } => {
            out.push(118);
            out.push(if *exact {
                49
            } else {
                48
            });
            push_field_i64(&mut out, *rank);
            push_field_i64(&mut out, *id);
        },
    }
    proof {
        assert(out@ =~= spec_encode(*p));
    }
    out
}

fn field_i64(s: &Vec<u8>, at: usize) -> (r: Option<i64>)
    requires
        at + 16 <= s@.len(),
    ensures
        r == spec_field_i64(s@, at as int),
{
    match parse_hex64(s, at) {
        Some(v) => Some(v as i64),
        None => None,
    }
}

/// Decodes a continuation token under the ordering in effect. A token
/// that cannot be read, or that was issued for a different ordering, is
/// refused as `BadSeekToken`.
pub fn decode(token: &Vec<u8>, expected: SortKey) -> (r: Result<SeekPayload, SearchError>)
    ensures
        match r {
            Result::Ok(p) => spec_decode(token@, expected) == Some(p),
            Result::Err(e) => spec_decode(token@, expected) is None && e matches
                SearchError::BadSeekToken,
        },
{
    let n = token.len();
    if n < 1 || token[0] != tag_byte(expected) {
        return Err(SearchError::BadSeekToken);
    }
    match expected {
        SortKey::Name => {
            if n == 17 {
                match field_i64(token, 1) {
                    Some(id) => Ok(SeekPayload::Name { id }),
                    None => Err(SearchError::BadSeekToken),
                }
            } else {
                Err(SearchError::BadSeekToken)
            }
        },
        SortKey::New => {
            if n == 33 {
                match (field_i64(token, 1), field_i64(token, 17)) {
                    (Some(created_at), Some(id)) => Ok(SeekPayload::New { created_at, id }),
                    _ => Err(SearchError::BadSeekToken),
                }
            } else {
                Err(SearchError::BadSeekToken)
            }
        },
        SortKey::RecentUpdates => {
            if n == 33 {
                match (field_i64(token, 1), field_i64(token, 17)) {
                    (Some(updated_at), Some(id)) => Ok(
                        SeekPayload::RecentUpdates { updated_at, id },
                    ),
                    _ => Err(SearchError::BadSeekToken),
                }
            } else {
                Err(SearchError::BadSeekToken)
            }
        },
        SortKey::RecentDownloads => {
            if n == 18 && token[1] == 48 {
                match field_i64(token, 2) {
                    Some(id) => Ok(SeekPayload::RecentDownloads { recent_downloads: None, id }),
                    None => Err(SearchError::BadSeekToken),
                }
            } else if n == 34 && token[1] == 49 {
                match (field_i64(token, 2), field_i64(token, 18)) {
                    (Some(d), Some(id)) => Ok(
                        SeekPayload::RecentDownloads { recent_downloads: Some(d), id },
                    ),
                    _ => Err(SearchError::BadSeekToken),
                }
            } else {
                Err(SearchError::BadSeekToken)
            }
        },
        SortKey::Downloads => {
            if n == 33 {
                match (field_i64(token, 1), field_i64(token, 17)) {
                    (Some(downloads), Some(id)) => Ok(SeekPayload::Downloads { downloads, id }),
                    _ => Err(SearchError::BadSeekToken),
                }
            } else {
                Err(SearchError::BadSeekToken)
            }
        },
        SortKey::Query => {
            if n == 18 && (token[1] == 48 || token[1] == 49) {
                let exact = token[1] == 49;
                match field_i64(token, 2) {
                    Some(id) => Ok(SeekPayload::Query { exact, id }),
                    None => Err(SearchError::BadSeekToken),
                }
            } else {
                Err(SearchError::BadSeekToken)
            }
        },
        SortKey::Relevance => {
            if n == 34 && (token[1] == 48 || token[1] == 49) {
                let exact = token[1] == 49;
                match (field_i64(token, 2), field_i64(token, 18)) {
                    (Some(rank), Some(id)) => Ok(SeekPayload::Relevance { exact, rank, id }),
                    _ => Err(SearchError::BadSeekToken),
                }
            } else {
                Err(SearchError::BadSeekToken)
            }
        },
    }
}

/// An `i64` survives the trip through its serialized two's-complement
/// pattern.
proof fn lemma_field_roundtrip(x: i64)
    ensures
        spec_unhex_nat(hex_i64(x)) == Some((x as u64) as nat),
        ((x as u64) as nat) as u64 == x as u64,
        (x as u64) as i64 == x,
{
    lemma_pow16_16();
    lemma_hex_roundtrip((x as u64) as nat, 16);
    assert((x as u64) as i64 == x) by (bit_vector);
}

/// Decoding a token under the ordering it was issued for gives back the
/// payload it was built from.
pub proof fn lemma_token_roundtrip(p: SeekPayload)
    ensures
        spec_decode(spec_encode(p), spec_payload_key(p)) == Some(p),
{
    let s = spec_encode(p);
    match p {
        SeekPayload::Name { id } => {
            lemma_hex_nat_len((id as u64) as nat, 16);
            lemma_field_roundtrip(id);
            assert(s.subrange(1, 17) =~= hex_i64(id));
        },
        SeekPayload::New { created_at, id } => {
            lemma_hex_nat_len((created_at as u64) as nat, 16);
            lemma_hex_nat_len((id as u64) as nat, 16);
            lemma_field_roundtrip(created_at);
            lemma_field_roundtrip(id);
            assert(s.subrange(1, 17) =~= hex_i64(created_at));
            assert(s.subrange(17, 33) =~= hex_i64(id));
        },
        SeekPayload::RecentUpdates { updated_at, id } => {
            lemma_hex_nat_len((updated_at as u64) as nat, 16);
            lemma_hex_nat_len((id as u64) as nat, 16);
            lemma_field_roundtrip(updated_at);
            lemma_field_roundtrip(id);
            assert(s.subrange(1, 17) =~= hex_i64(updated_at));
            assert(s.subrange(17, 33) =~= hex_i64(id));
        },
        SeekPayload::RecentDownloads { recent_downloads, id } => {
            lemma_hex_nat_len((id as u64) as nat, 16);
            lemma_field_roundtrip(id);
            match recent_downloads {
                Option::None => {
                    assert(s.subrange(2, 18) =~= hex_i64(id));
                },
                Option::Some(d) => {
                    lemma_hex_nat_len((d as u64) as nat, 16);
                    lemma_field_roundtrip(d);
                    assert(s.subrange(2, 18) =~= hex_i64(d));
                    assert(s.subrange(18, 34) =~= hex_i64(id));
                },
            }
        },
        SeekPayload::Downloads { downloads, id } => {
            lemma_hex_nat_len((downloads as u64) as nat, 16);
            lemma_hex_nat_len((id as u64) as nat, 16);
            lemma_field_roundtrip(downloads);
            lemma_field_roundtrip(id);
            assert(s.subrange(1, 17) =~= hex_i64(downloads));
            assert(s.subrange(17, 33) =~= hex_i64(id));
        },
        SeekPayload::Query { exact, id } => {
            lemma_hex_nat_len((id as u64) as nat, 16);
            lemma_field_roundtrip(id);
            assert(s.subrange(2, 18) =~= hex_i64(id));
        },
        SeekPayload::Relevance { exact, rank, id } => {
            lemma_hex_nat_len((rank as u64) as nat, 16);
            lemma_hex_nat_len((id as u64) as nat, 16);
            lemma_field_roundtrip(rank);
            lemma_field_roundtrip(id);
            assert(s.subrange(2, 18) =~= hex_i64(rank));
            assert(s.subrange(18, 34) =~= hex_i64(id));
        },
    }
}

/// A token is refused under any ordering other than the one it was
/// issued for.
pub proof fn lemma_token_key_mismatch(p: SeekPayload, k: SortKey)
    requires
        k != spec_payload_key(p),
    ensures
        spec_decode(spec_encode(p), k) is None,
{
    assert(spec_encode(p)[0] == spec_tag(spec_payload_key(p)));
    assert(spec_tag(spec_payload_key(p)) != spec_tag(k));
}

} // verus!
