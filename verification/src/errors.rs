//! The error taxonomy of the search engine. Every error is terminal for
//! the request; none is retried internally.
use vstd::prelude::*;

verus! {

/// Errors of the search engine.
///
/// All but `StorageUnavailable` are client-input faults; the engine itself
/// never raises `StorageUnavailable`, callers that run it against a remote
/// store map their transport faults to it.
#[derive(Debug)]
pub enum SearchError {
    /// A facet value was rejected; carries the message shown to the client.
    Validation(Vec<u8>),
    /// The continuation token could not be decoded, or was issued for a
    /// different ordering.
    BadSeekToken,
    /// `page` or `per_page` was not a positive integer within the
    /// configured ceiling; carries the offending literal.
    InvalidPaginationParameter(Vec<u8>),
    /// The `following` facet was requested without an authenticated
    /// identity.
    Unauthenticated,
    /// The backing store could not be reached.
    StorageUnavailable,
}

/// Message for an empty `letter` facet value.
/// The bytes spell `letter value must contain 1 character`.
pub open spec fn letter_msg() -> Seq<u8> {
    seq![108, 101, 116, 116, 101, 114, 32, 118, 97, 108, 117, 101, 32, 109, 117, 115, 116, 32, 99, 111, 110, 116, 97, 105, 110, 32, 49, 32, 99, 104, 97, 114, 97, 99, 116, 101, 114]
}

pub fn letter_msg_bytes() -> (r: Vec<u8>)
    ensures
        r@ == letter_msg(),
{
    let r: Vec<u8> = vec![108, 101, 116, 116, 101, 114, 32, 118, 97, 108, 117, 101, 32, 109, 117, 115, 116, 32, 99, 111, 110, 116, 97, 105, 110, 32, 49, 32, 99, 104, 97, 114, 97, 99, 116, 101, 114];
    proof {
        assert(r@ =~= letter_msg());
    }
    r
}

/// Message prefix naming a bad `page`/`per_page` literal.
/// The bytes spell `invalid pagination parameter: `.
pub open spec fn pagination_msg_prefix() -> Seq<u8> {
    seq![105, 110, 118, 97, 108, 105, 100, 32, 112, 97, 103, 105, 110, 97, 116, 105, 111, 110, 32, 112, 97, 114, 97, 109, 101, 116, 101, 114, 58, 32]
}

pub fn pagination_msg_prefix_bytes() -> (r: Vec<u8>)
    ensures
        r@ == pagination_msg_prefix(),
{
    let r: Vec<u8> = vec![105, 110, 118, 97, 108, 105, 100, 32, 112, 97, 103, 105, 110, 97, 116, 105, 111, 110, 32, 112, 97, 114, 97, 109, 101, 116, 101, 114, 58, 32];
    proof {
        assert(r@ =~= pagination_msg_prefix());
    }
    r
}

/// Message for an undecodable or mismatched continuation token.
/// The bytes spell `invalid seek parameter`.
pub open spec fn bad_seek_msg() -> Seq<u8> {
    seq![105, 110, 118, 97, 108, 105, 100, 32, 115, 101, 101, 107, 32, 112, 97, 114, 97, 109, 101, 116, 101, 114]
}

pub fn bad_seek_msg_bytes() -> (r: Vec<u8>)
    ensures
        r@ == bad_seek_msg(),
{
    let r: Vec<u8> = vec![105, 110, 118, 97, 108, 105, 100, 32, 115, 101, 101, 107, 32, 112, 97, 114, 97, 109, 101, 116, 101, 114];
    proof {
        assert(r@ =~= bad_seek_msg());
    }
    r
}

/// Message when the `following` facet lacks an identity.
/// The bytes spell `must be logged in to perform that action`.
pub open spec fn unauthenticated_msg() -> Seq<u8> {
    seq![109, 117, 115, 116, 32, 98, 101, 32, 108, 111, 103, 103, 101, 100, 32, 105, 110, 32, 116, 111, 32, 112, 101, 114, 102, 111, 114, 109, 32, 116, 104, 97, 116, 32, 97, 99, 116, 105, 111, 110]
}

pub fn unauthenticated_msg_bytes() -> (r: Vec<u8>)
    ensures
        r@ == unauthenticated_msg(),
{
    let r: Vec<u8> = vec![109, 117, 115, 116, 32, 98, 101, 32, 108, 111, 103, 103, 101, 100, 32, 105, 110, 32, 116, 111, 32, 112, 101, 114, 102, 111, 114, 109, 32, 116, 104, 97, 116, 32, 97, 99, 116, 105, 111, 110];
    proof {
        assert(r@ =~= unauthenticated_msg());
    }
    r
}

/// Message for a store fault.
/// The bytes spell `the storage backend is unavailable`.
pub open spec fn storage_msg() -> Seq<u8> {
    seq![116, 104, 101, 32, 115, 116, 111, 114, 97, 103, 101, 32, 98, 97, 99, 107, 101, 110, 100, 32, 105, 115, 32, 117, 110, 97, 118, 97, 105, 108, 97, 98, 108, 101]
}

pub fn storage_msg_bytes() -> (r: Vec<u8>)
    ensures
        r@ == storage_msg(),
{
    let r: Vec<u8> = vec![116, 104, 101, 32, 115, 116, 111, 114, 97, 103, 101, 32, 98, 97, 99, 107, 101, 110, 100, 32, 105, 115, 32, 117, 110, 97, 118, 97, 105, 108, 97, 98, 108, 101];
    proof {
        assert(r@ =~= storage_msg());
    }
    r
}

/// What `detail` returns for each error.
pub open spec fn spec_detail(e: SearchError) -> Seq<u8> {
    match e {
        SearchError::Validation(m) => m@,
        SearchError::BadSeekToken => bad_seek_msg(),
        SearchError::InvalidPaginationParameter(v) => pagination_msg_prefix() + v@,
        SearchError::Unauthenticated => unauthenticated_msg(),
        SearchError::StorageUnavailable => storage_msg(),
    }
}

impl SearchError {
    /// The client-facing message; a pagination error names the offending
    /// literal.
    pub fn detail(&self) -> (r: Vec<u8>)
        ensures
            r@ == spec_detail(*self),
    {
        match self {
            SearchError::Validation(m) => {
                let mut r: Vec<u8> = Vec::new();
                append_bytes(&mut r, m);
                assert(r@ =~= m@);
                r
            },
            SearchError::BadSeekToken => bad_seek_msg_bytes(),
            SearchError::InvalidPaginationParameter(v) => {
                let mut r: Vec<u8> = pagination_msg_prefix_bytes();
                append_bytes(&mut r, v);
                r
            },
            SearchError::Unauthenticated => unauthenticated_msg_bytes(),
            SearchError::StorageUnavailable => storage_msg_bytes(),
        }
    }
}

/// Appends `src` to `dst`.
pub fn append_bytes(dst: &mut Vec<u8>, src: &Vec<u8>)
    ensures
        final(dst)@ == old(dst)@ + src@,
{
    let mut i: usize = 0;
    while i < src.len()
        invariant
            i <= src.len(),
            dst@ == old(dst)@ + src@.take(i as int),
        decreases src.len() - i,
    {
        dst.push(src[i]);
        i = i + 1;
        assert(old(dst)@ + src@.take(i as int) =~= (old(dst)@ + src@.take(i as int - 1)).push(
            src@[i as int - 1],
        ));
    }
    assert(dst@ =~= old(dst)@ + src@);
}

} // verus!
