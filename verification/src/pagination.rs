//! Validation of the pagination parameters: `page` and `per_page` must be
//! positive integers within the configured ceilings, and the offending
//! literal is carried in the error.
use vstd::prelude::*;

use crate::errors::SearchError;
use crate::text::copy_bytes;

verus! {

/// Rows per page when the request names none.
pub const DEFAULT_PER_PAGE: u32 = 10;

/// The ceiling for `per_page`.
pub const MAX_PER_PAGE: u32 = 100;

/// The ceiling for an explicit `page`.
pub const MAX_PAGE: u32 = 200;

pub open spec fn is_digit(b: u8) -> bool {
    48 <= b && b <= 57
}

pub open spec fn all_digits(s: Seq<u8>) -> bool {
    forall|k: int| 0 <= k < s.len() ==> is_digit(#[trigger] s[k])
}

/// The decimal value of a digit string.
pub open spec fn dec_value(s: Seq<u8>) -> int
    decreases s.len(),
{
    if s.len() == 0 {
        0
    } else {
        dec_value(s.drop_last()) * 10 + (s.last() - 48)
    }
}

/// What a `page`/`per_page` literal denotes: its decimal value, if the
/// string is one or more digits and the value fits in 32 bits.
pub open spec fn spec_parse_u32(s: Seq<u8>) -> Option<u32> {
    if s.len() > 0 && all_digits(s) && 0 <= dec_value(s) <= u32::MAX {
        Some(dec_value(s) as u32)
    } else {
        None
    }
}

/// A valid parameter value: parses, is positive, and is at most `max`.
pub open spec fn spec_page_param(s: Seq<u8>, max: u32) -> Option<u32> {
    match spec_parse_u32(s) {
        Option::Some(v) => if 1 <= v && v <= max {
            Some(v)
        } else {
            None
        },
        Option::None => None,
    }
}

proof fn lemma_dec_value_mono(s: Seq<u8>, i: int)
    requires
        0 <= i <= s.len(),
        all_digits(s),
        dec_value(s.take(i)) >= 0,
    ensures
        dec_value(s.take(i)) <= dec_value(s),
    decreases s.len() - i,
{
    if i < s.len() {
        assert(s.take(i + 1).drop_last() =~= s.take(i));
        assert(is_digit(s[i]));
        assert(s.take(i + 1).last() == s[i]);
        assert(dec_value(s.take(i)) <= dec_value(s.take(i + 1)));
        lemma_dec_value_mono(s, i + 1);
    } else {
        assert(s.take(i) =~= s);
    }
}

/// Reads a digit string as a `u32`; `None` when empty, on any non-digit,
/// and on overflow.
pub fn parse_u32(s: &Vec<u8>) -> (r: Option<u32>)
    ensures
        r == spec_parse_u32(s@),
{
    if s.len() == 0 {
        return None;
    }
    let mut acc: u64 = 0;
    let mut i: usize = 0;
    let limit: u64 = 0xffffffff;
    proof {
        assert(s@.take(0) =~= Seq::<u8>::empty());
    }
    while i < s.len()
        invariant
            i <= s.len(),
            acc == dec_value(s@.take(i as int)),
            acc <= limit,
            limit == u32::MAX,
            all_digits(s@.take(i as int)),
        decreases s.len() - i,
    {
        let b = s[i];
        if !(48 <= b && b <= 57) {
            assert(!is_digit(s@[i as int]));
            return None;
        }
        proof {
            assert(s@.take(i as int + 1).drop_last() =~= s@.take(i as int));
            assert(s@.take(i as int + 1).last() == s@[i as int]);
        }
        let d: u64 = (b - 48) as u64;
        let next: u64 = acc * 10 + d;
        i = i + 1;
        if next > limit {
            proof {
                if all_digits(s@) {
                    lemma_dec_value_mono(s@, i as int);
                }
            }
            return None;
        }
        acc = next;
    }
    proof {
        assert(s@.take(s@.len() as int) =~= s@);
    }
    Some(acc as u32)
}

/// Validates one pagination literal against its ceiling; the error names
/// the literal.
pub fn check_page_param(s: &Vec<u8>, max: u32) -> (r: Result<u32, SearchError>)
    ensures
        match r {
            Result::Ok(v) => spec_page_param(s@, max) == Some(v),
            Result::Err(e) => spec_page_param(s@, max) is None && (e matches
                SearchError::InvalidPaginationParameter(raw) && raw@ == s@),
        },
{
    match parse_u32(s) {
        Some(v) => {
            if 1 <= v && v <= max {
                Ok(v)
            } else {
                Err(SearchError::InvalidPaginationParameter(copy_bytes(s)))
            }
        },
        None => Err(SearchError::InvalidPaginationParameter(copy_bytes(s))),
    }
}

} // verus!
