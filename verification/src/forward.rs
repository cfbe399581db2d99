use vstd::prelude::*;
use vstd::string::StringExecFns;

use crate::tokens::Entry;
use crate::tokens::bump;
use crate::tokens::bump_result;
use crate::tokens::first_min_index;
use crate::tokens::lemma_first_min_index_props;

verus! {

/// The fixed upstream host every request is forwarded to.
pub open spec fn upstream_base() -> Seq<char> {
    "https://openrouter.ai"@
}

/// The outbound URL: the fixed upstream base followed by the inbound
/// request's path and query, unchanged.
pub fn upstream_url(path_and_query: &str) -> (u: String)
    ensures
        u@ == upstream_base() + path_and_query@,
{
    let mut s = String::from_str("https://openrouter.ai");
    s.append(path_and_query);
    s
}

/// The outbound Authorization value that replaces the caller's own:
/// `Bearer ` followed by the serving credential's secret. It is sent
/// upstream only, never back to the caller.
pub fn bearer_value(secret: &str) -> (v: String)
    ensures
        v@ == "Bearer "@ + secret@,
{
    let mut s = String::from_str("Bearer ");
    s.append(secret);
    s
}

/// What every relayed response starts with, whichever way the body goes
/// back: the upstream status, the serving credential's display name for the
/// X-TOKEN-NAME header, and a Content-Type.
pub struct ResponseHead {
    pub status: u16,
    pub token_name: String,
    pub content_type: String,
}

/// The Content-Type a response falls back to when upstream gave none.
pub open spec fn default_content_type() -> Seq<char> {
    "application/json"@
}

/// Builds the relayed response's head: the upstream status unchanged, the
/// serving credential's display name (never its secret), and the upstream
/// Content-Type, or `application/json` when upstream omitted it.
pub fn build_response_head(status: u16, upstream_content_type: Option<&str>, token_name: String) -> (h: ResponseHead)
    ensures
        h.status == status,
        h.token_name@ == token_name@,
        match upstream_content_type {
            Some(ct) => h.content_type@ == ct@,
            None => h.content_type@ == default_content_type(),
        },
{
    let content_type = match upstream_content_type {
        Some(ct) => String::from_str(ct),
        None => String::from_str("application/json"),
    };
    ResponseHead { status, token_name, content_type }
}

/// The two pools agree on everything a caller can observe: same size, same
/// display names slot by slot, same usage counts; only the secrets may
/// differ.
pub open spec fn agree_but_secrets(s1: Seq<Entry>, s2: Seq<Entry>) -> bool {
    &&& s1.len() == s2.len()
    &&& forall|i: int| 0 <= i < s1.len() ==> #[trigger] s1[i].token.name@ == s2[i].token.name@
    &&& forall|i: int| 0 <= i < s1.len() ==> #[trigger] s1[i].count == s2[i].count
}

proof fn lemma_first_min_index_counts_only(s1: Seq<Entry>, s2: Seq<Entry>)
    requires
        s1.len() == s2.len(),
        forall|i: int| 0 <= i < s1.len() ==> #[trigger] s1[i].count == s2[i].count,
    ensures
        s1.len() > 0 ==> first_min_index(s1) == first_min_index(s2),
    decreases s1.len(),
{
    if s1.len() > 1 {
        lemma_first_min_index_counts_only(s1.drop_last(), s2.drop_last());
        assert(forall|j: int| 0 <= j < s1.len() - 1 ==> s1.drop_last()[j] == s1[j]);
        assert(forall|j: int| 0 <= j < s2.len() - 1 ==> s2.drop_last()[j] == s2[j]);
        lemma_first_min_index_props(s1.drop_last());
        let r = first_min_index(s1.drop_last());
        assert(s1[s1.len() - 1].count == s2[s2.len() - 1].count);
        assert(s1[r].count == s2[r].count);
    }
}

/// Secret non-leak, as non-interference: run two pools that differ only in
/// their secrets and a caller cannot tell them apart. The same slot serves
/// each request, the attributed display name is the same, and the pools stay
/// in agreement forever after. Since the response head and the error
/// envelopes are built from the display name and fixed text alone, nothing a
/// caller receives depends on any secret.
pub proof fn lemma_secret_non_interference(s1: Seq<Entry>, s2: Seq<Entry>)
    requires
        s1.len() > 0,
        agree_but_secrets(s1, s2),
    ensures
        first_min_index(s1) == first_min_index(s2),
        bump_result(s1).name@ == bump_result(s2).name@,
        agree_but_secrets(bump(s1), bump(s2)),
{
    lemma_first_min_index_counts_only(s1, s2);
    lemma_first_min_index_props(s1);
    let m = first_min_index(s1);
    assert(forall|i: int|
        0 <= i < s1.len() ==> #[trigger] bump(s1)[i].token.name@ == bump(s2)[i].token.name@);
    assert(forall|i: int| 0 <= i < s1.len() ==> #[trigger] bump(s1)[i].count == bump(s2)[i].count);
}

} // verus!
