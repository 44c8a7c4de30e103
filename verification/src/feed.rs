//! The per-crate release feed: which version updates it carries and the
//! strings of its entries. Fetching the versions and uploading the feed
//! are the caller's I/O; the selection rule and the rendering are here.
use vstd::prelude::*;

use crate::errors::append_bytes;
use crate::text::copy_bytes;

verus! {

/// Updates younger than this (microseconds) are always carried.
pub const ALWAYS_INCLUDE_AGE_MICROS: i64 = 86400000000;

/// The feed carries at least this many updates when the crate has them.
pub const FEED_NUM_ITEMS: usize = 10;

/// One published version update: the version string and its publication
/// time (microseconds).
#[derive(Debug)]
pub struct VersionUpdate {
    pub version: Vec<u8>,
    pub time: i64,
}

/// The background job that regenerates one crate's release feed. Running
/// it needs the store and the feed storage, which live with the caller;
/// the job itself only names the crate.
#[derive(Debug)]
pub struct SyncCrateFeed {
    name: Vec<u8>,
}

impl SyncCrateFeed {
    /// The crate the job is for, in specifications.
    pub closed spec fn spec_name(&self) -> Seq<u8> {
        self.name@
    }

    pub fn new(name: Vec<u8>) -> (r: Self)
        ensures
            r.spec_name() == name@,
    {
        SyncCrateFeed { name }
    }

    /// The crate the job is for.
    pub fn name(&self) -> (r: &Vec<u8>)
        ensures
            r@ == self.spec_name(),
    {
        &self.name
    }
}

/// How many leading entries of the (newest-first) list are younger than
/// the threshold.
pub open spec fn spec_recent_prefix(s: Seq<VersionUpdate>, threshold: i64, i: int) -> int
    decreases s.len() - i,
{
    if i < 0 || i >= s.len() {
        s.len() as int
    } else if s[i].time > threshold {
        spec_recent_prefix(s, threshold, i + 1)
    } else {
        i
    }
}

/// How many entries the feed carries: every update younger than the
/// threshold, padded with older ones up to `FEED_NUM_ITEMS`.
pub open spec fn spec_feed_len(s: Seq<VersionUpdate>, threshold: i64) -> int {
    let recent = spec_recent_prefix(s, threshold, 0);
    let base = if s.len() < FEED_NUM_ITEMS {
        s.len() as int
    } else {
        FEED_NUM_ITEMS as int
    };
    if recent > base {
        recent
    } else {
        base
    }
}

/// Selects the updates the feed carries from the newest-first list of a
/// crate's versions: all younger than the threshold, padded with older
/// ones up to `FEED_NUM_ITEMS`.
pub fn select_version_updates(updates: &Vec<VersionUpdate>, threshold: i64) -> (r: Vec<
    VersionUpdate,
>)
    requires
        forall|a: int, b: int|
            0 <= a < b < updates@.len() ==> (#[trigger] updates@[a]).time >= (
            #[trigger] updates@[b]).time,
    ensures
        r@.len() == spec_feed_len(updates@, threshold),
        forall|i: int|
            0 <= i < r@.len() ==> (#[trigger] r@[i]).version@ == updates@[i].version@
                && r@[i].time == updates@[i].time,
{
    let n = updates.len();
    let mut recent: usize = 0;
    while recent < n && updates[recent].time > threshold
        invariant
            recent <= n,
            n == updates@.len(),
            spec_recent_prefix(updates@, threshold, 0) == spec_recent_prefix(
                updates@,
                threshold,
                recent as int,
            ),
        decreases n - recent,
    {
        recent = recent + 1;
    }
    let base = if n < FEED_NUM_ITEMS {
        n
    } else {
        FEED_NUM_ITEMS
    };
    let take = if recent > base {
        recent
    } else {
        base
    };
    let mut r: Vec<VersionUpdate> = Vec::new();
    let mut i: usize = 0;
    while i < take
        invariant
            i <= take,
            take <= n,
            n == updates@.len(),
            r@.len() == i,
            forall|j: int|
                0 <= j < i ==> (#[trigger] r@[j]).version@ == updates@[j].version@ && r@[j].time
                    == updates@[j].time,
        decreases take - i,
    {
        let u = VersionUpdate { version: copy_bytes(&updates[i].version), time: updates[i].time };
        r.push(u);
        i = i + 1;
    }
    r
}

/// The bytes spell `New crate version published: `.
pub open spec fn title_prefix() -> Seq<u8> {
    seq![78, 101, 119, 32, 99, 114, 97, 116, 101, 32, 118, 101, 114, 115, 105, 111, 110, 32, 112, 117, 98, 108, 105, 115, 104, 101, 100, 58, 32]
}

fn title_prefix_bytes() -> (r: Vec<u8>)
    ensures
        r@ == title_prefix(),
{
    let r: Vec<u8> = vec![78, 101, 119, 32, 99, 114, 97, 116, 101, 32, 118, 101, 114, 115, 105, 111, 110, 32, 112, 117, 98, 108, 105, 115, 104, 101, 100, 58, 32];
    proof {
        assert(r@ =~= title_prefix());
    }
    r
}

/// The bytes spell ` v`.
pub open spec fn title_mid() -> Seq<u8> {
    seq![32, 118]
}

fn title_mid_bytes() -> (r: Vec<u8>)
    ensures
        r@ == title_mid(),
{
    let r: Vec<u8> = vec![32, 118];
    proof {
        assert(r@ =~= title_mid());
    }
    r
}

/// The bytes spell `https://`.
pub open spec fn https_prefix() -> Seq<u8> {
    seq![104, 116, 116, 112, 115, 58, 47, 47]
}

fn https_prefix_bytes() -> (r: Vec<u8>)
    ensures
        r@ == https_prefix(),
{
    let r: Vec<u8> = vec![104, 116, 116, 112, 115, 58, 47, 47];
    proof {
        assert(r@ =~= https_prefix());
    }
    r
}

/// The bytes spell `/crates/`.
pub open spec fn crates_path() -> Seq<u8> {
    seq![47, 99, 114, 97, 116, 101, 115, 47]
}

fn crates_path_bytes() -> (r: Vec<u8>)
    ensures
        r@ == crates_path(),
{
    let r: Vec<u8> = vec![47, 99, 114, 97, 116, 101, 115, 47];
    proof {
        assert(r@ =~= crates_path());
    }
    r
}

/// The bytes spell `/`.
pub open spec fn slash() -> Seq<u8> {
    seq![47]
}

fn slash_bytes() -> (r: Vec<u8>)
    ensures
        r@ == slash(),
{
    let r: Vec<u8> = vec![47];
    proof {
        assert(r@ =~= slash());
    }
    r
}

/// The bytes spell `crates.io: `.
pub open spec fn channel_title_prefix() -> Seq<u8> {
    seq![99, 114, 97, 116, 101, 115, 46, 105, 111, 58, 32]
}

fn channel_title_prefix_bytes() -> (r: Vec<u8>)
    ensures
        r@ == channel_title_prefix(),
{
    let r: Vec<u8> = vec![99, 114, 97, 116, 101, 115, 46, 105, 111, 58, 32];
    proof {
        assert(r@ =~= channel_title_prefix());
    }
    r
}

/// The bytes spell ` releases`.
pub open spec fn channel_title_suffix() -> Seq<u8> {
    seq![32, 114, 101, 108, 101, 97, 115, 101, 115]
}

fn channel_title_suffix_bytes() -> (r: Vec<u8>)
    ensures
        r@ == channel_title_suffix(),
{
    let r: Vec<u8> = vec![32, 114, 101, 108, 101, 97, 115, 101, 115];
    proof {
        assert(r@ =~= channel_title_suffix());
    }
    r
}

/// The bytes spell `Recent releases of the `.
pub open spec fn channel_desc_prefix() -> Seq<u8> {
    seq![82, 101, 99, 101, 110, 116, 32, 114, 101, 108, 101, 97, 115, 101, 115, 32, 111, 102, 32, 116, 104, 101, 32]
}

fn channel_desc_prefix_bytes() -> (r: Vec<u8>)
    ensures
        r@ == channel_desc_prefix(),
{
    let r: Vec<u8> = vec![82, 101, 99, 101, 110, 116, 32, 114, 101, 108, 101, 97, 115, 101, 115, 32, 111, 102, 32, 116, 104, 101, 32];
    proof {
        assert(r@ =~= channel_desc_prefix());
    }
    r
}

/// The bytes spell ` crate on the crates.io package registry`.
pub open spec fn channel_desc_suffix() -> Seq<u8> {
    seq![32, 99, 114, 97, 116, 101, 32, 111, 110, 32, 116, 104, 101, 32, 99, 114, 97, 116, 101, 115, 46, 105, 111, 32, 112, 97, 99, 107, 97, 103, 101, 32, 114, 101, 103, 105, 115, 116, 114, 121]
}

fn channel_desc_suffix_bytes() -> (r: Vec<u8>)
    ensures
        r@ == channel_desc_suffix(),
{
    let r: Vec<u8> = vec![32, 99, 114, 97, 116, 101, 32, 111, 110, 32, 116, 104, 101, 32, 99, 114, 97, 116, 101, 115, 46, 105, 111, 32, 112, 97, 99, 107, 97, 103, 101, 32, 114, 101, 103, 105, 115, 116, 114, 121];
    proof {
        assert(r@ =~= channel_desc_suffix());
    }
    r
}

/// The rendered strings of one feed entry.
#[derive(Debug)]
pub struct FeedEntry {
    pub title: Vec<u8>,
    pub link: Vec<u8>,
    /// Equal to the link; the entry's permanent id.
    pub guid: Vec<u8>,
    pub pub_date: Vec<u8>,
}

/// The RFC 2822 rendering of a timestamp (microseconds), as chrono
/// produces it.
pub uninterp spec fn rfc2822_of(t: int) -> Seq<u8>;

/// Timestamps from the epoch up to the end of year 9999: the range in
/// which the RFC 2822 rendering is defined and chrono cannot refuse or
/// panic.
pub open spec fn rfc2822_in_range(t: int) -> bool {
    0 <= t <= 253402300799999999
}

/// Relies on chrono: `DateTime::from_timestamp_micros` followed by
/// `DateTime::to_rfc2822`. Within `rfc2822_in_range` the timestamp
/// converts, the year is at most 9999, and the rendering is a function
/// of the timestamp alone.
#[verifier::external_body]
fn format_rfc2822(t: i64) -> (r: Vec<u8>)
    requires
        rfc2822_in_range(t as int),
    ensures
        r@ == rfc2822_of(t as int),
{
    match chrono::DateTime::from_timestamp_micros(t) {
        Some(dt) => dt.to_rfc2822().into_bytes(),
        None => Vec::new(),
    }
}

/// Renders one version update as a feed entry: the announcement title,
/// the version's page as link and permanent id, and the publication
/// date.
pub fn feed_entry(name: &Vec<u8>, version: &Vec<u8>, domain: &Vec<u8>, time: i64) -> (r: FeedEntry)
    requires
        rfc2822_in_range(time as int),
    ensures
        r.title@ == title_prefix() + name@ + title_mid() + version@,
        r.link@ == https_prefix() + domain@ + crates_path() + name@ + seq![47u8] + version@,
        r.guid@ == r.link@,
        r.pub_date@ == rfc2822_of(time as int),
{
    let mut title = title_prefix_bytes();
    append_bytes(&mut title, name);
    let mid = title_mid_bytes();
    append_bytes(&mut title, &mid);
    append_bytes(&mut title, version);
    let mut link = https_prefix_bytes();
    append_bytes(&mut link, domain);
    let path = crates_path_bytes();
    append_bytes(&mut link, &path);
    append_bytes(&mut link, name);
    let sl = slash_bytes();
    append_bytes(&mut link, &sl);
    append_bytes(&mut link, version);
    let guid = copy_bytes(&link);
    let pub_date = format_rfc2822(time);
    proof {
        assert(title@ =~= title_prefix() + name@ + title_mid() + version@);
        assert(link@ =~= https_prefix() + domain@ + crates_path() + name@ + seq![47u8]
            + version@);
    }
    FeedEntry { title, link, guid, pub_date }
}

/// The rendered strings of a crate's feed channel.
#[derive(Debug)]
pub struct FeedChannel {
    pub title: Vec<u8>,
    pub link: Vec<u8>,
    pub description: Vec<u8>,
}

/// Renders the channel strings of a crate's release feed.
pub fn feed_channel(name: &Vec<u8>, domain: &Vec<u8>) -> (r: FeedChannel)
    ensures
        r.title@ == channel_title_prefix() + name@ + channel_title_suffix(),
        r.link@ == https_prefix() + domain@ + crates_path() + name@,
        r.description@ == channel_desc_prefix() + name@ + channel_desc_suffix(),
{
    let mut title = channel_title_prefix_bytes();
    append_bytes(&mut title, name);
    let suf = channel_title_suffix_bytes();
    append_bytes(&mut title, &suf);
    let mut link = https_prefix_bytes();
    append_bytes(&mut link, domain);
    let path = crates_path_bytes();
    append_bytes(&mut link, &path);
    append_bytes(&mut link, name);
    let mut description = channel_desc_prefix_bytes();
    append_bytes(&mut description, name);
    let dsuf = channel_desc_suffix_bytes();
    append_bytes(&mut description, &dsuf);
    proof {
        assert(title@ =~= channel_title_prefix() + name@ + channel_title_suffix());
        assert(link@ =~= https_prefix() + domain@ + crates_path() + name@);
        assert(description@ =~= channel_desc_prefix() + name@ + channel_desc_suffix());
    }
    FeedChannel { title, link, description }
}

} // verus!
