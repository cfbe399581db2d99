use vstd::prelude::*;
use vstd::string::StrSliceExecFns;

use crate::auth::view_opt_str;

verus! {

/// `needle` occurs contiguously somewhere inside `hay`.
pub open spec fn has_substring(hay: Seq<char>, needle: Seq<char>) -> bool {
    exists|k: int|
        0 <= k <= hay.len() - needle.len() && #[trigger] hay.subrange(k, k + needle.len())
            == needle
}

/// Whether `needle` starts at position `k` of `hay`.
fn matches_at(hay: &str, needle: &str, k: usize) -> (r: bool)
    requires
        k + needle@.len() <= hay@.len() <= usize::MAX,
    ensures
        r == (hay@.subrange(k as int, k + needle@.len()) == needle@),
{
    let nn = needle.unicode_len();
    let mut j: usize = 0;
    while j < nn
        invariant
            nn == needle@.len(),
            k + nn <= hay@.len() <= usize::MAX,
            0 <= j <= nn,
            forall|t: int| 0 <= t < j ==> hay@[k + t] == needle@[t],
        decreases nn - j,
    {
        if hay.get_char(k + j) != needle.get_char(j) {
            proof {
                assert(hay@.subrange(k as int, k + nn as int)[j as int] == hay@[k + j]);
            }
            return false;
        }
        j += 1;
    }
    proof {
        assert(hay@.subrange(k as int, k + nn as int) =~= needle@);
    }
    true
}

/// Whether `needle` occurs anywhere in `hay`, comparing by characters.
pub fn contains_substr(hay: &str, needle: &str) -> (r: bool)
    ensures
        r == has_substring(hay@, needle@),
{
    let hn = hay.unicode_len();
    let nn = needle.unicode_len();
    if nn > hn {
        return false;
    }
    if nn == 0 {
        proof {
            assert(hay@.subrange(0, 0 + needle@.len() as int) =~= needle@);
        }
        return true;
    }
    let mut k: usize = 0;
    while k <= hn - nn
        invariant
            hn == hay@.len(),
            nn == needle@.len(),
            1 <= nn <= hn,
            0 <= k <= hn - nn + 1,
            forall|t: int| 0 <= t < k ==> #[trigger] hay@.subrange(t, t + nn as int) != needle@,
        decreases hn - k,
    {
        if matches_at(hay, needle, k) {
            proof {
                assert(hay@.subrange(k as int, k + nn as int) == needle@);
            }
            return true;
        }
        k += 1;
    }
    false
}

/// How an upstream response is relayed back to the caller: incrementally as
/// its bytes arrive, or as one complete body.
#[derive(Clone, Copy, Debug, PartialEq, Eq, Structural)]
pub enum RelayMode {
    Streaming,
    Buffered,
}

/// A response streams iff its Transfer-Encoding contains `chunked` or its
/// Content-Type contains `text/event-stream`; everything else is buffered.
pub open spec fn spec_is_streaming(te: Option<Seq<char>>, ct: Option<Seq<char>>) -> bool {
    (te matches Some(v) && has_substring(v, "chunked"@)) || (ct matches Some(v)
        && has_substring(v, "text/event-stream"@))
}

/// Classifies an upstream response by its Transfer-Encoding and Content-Type
/// header values (absent or unreadable values come in as `None`).
pub fn classify_response(transfer_encoding: Option<&str>, content_type: Option<&str>) -> (m:
    RelayMode)
    ensures
        (m is Streaming) == spec_is_streaming(
            view_opt_str(transfer_encoding),
            view_opt_str(content_type),
        ),
{
    let chunked = match transfer_encoding {
        Some(v) => contains_substr(v, "chunked"),
        None => false,
    };
    let sse = match content_type {
        Some(v) => contains_substr(v, "text/event-stream"),
        None => false,
    };
    if chunked || sse {
        RelayMode::Streaming
    } else {
        RelayMode::Buffered
    }
}

} // verus!
