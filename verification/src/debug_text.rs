//! Texts for logs.

use vstd::prelude::*;
use vstd::string::*;

verus! {

/// What `{:?}` writes for the text `s`.
pub uninterp spec fn debug_str(s: Seq<char>) -> Seq<char>;

/// What `{:?}` writes for a `std::time::Duration` of these seconds and nanoseconds.
pub uninterp spec fn debug_duration(secs: u64, nanos: u32) -> Seq<char>;

/// `format!` with `{:?}` on a `str`: the text in quotes, with escapes.
#[verifier::external_body]
pub(crate) fn str_debug(s: &str) -> (r: String)
    ensures
        r@ == debug_str(s@),
{
    format!("{:?}", s)
}

/// `format!` with `{:?}` on a `std::time::Duration`.
#[verifier::external_body]
pub(crate) fn duration_debug(secs: u64, nanos: u32) -> (r: String)
    requires
        nanos < 1_000_000_000,
    ensures
        r@ == debug_duration(secs, nanos),
{
    format!("{:?}", std::time::Duration::new(secs, nanos))
}

} // verus!
