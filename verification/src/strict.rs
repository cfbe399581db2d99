use vstd::prelude::*;
use vstd::string::StringExecFns;

verus! {

/// The upstream API base the strict mode's fixed endpoints call.
pub open spec fn strict_base() -> Seq<char> {
    "https://openrouter.ai/api/v1/"@
}

/// The strict-mode URL for one fixed upstream resource, such as `models`,
/// `providers` or `generation`.
pub fn strict_endpoint_url(resource: &str) -> (u: String)
    ensures
        u@ == strict_base() + resource@,
{
    let mut s = String::from_str("https://openrouter.ai/api/v1/");
    s.append(resource);
    s
}

/// The per-model parameters resource: `parameters/{author}/{slug}`.
pub fn parameters_url(author: &str, slug: &str) -> (u: String)
    ensures
        u@ == strict_base() + "parameters/"@ + author@ + "/"@ + slug@,
{
    let mut s = String::from_str("https://openrouter.ai/api/v1/");
    s.append("parameters/");
    s.append(author);
    s.append("/");
    s.append(slug);
    s
}

/// Strict mode rejects an empty generation id before anything is sent
/// upstream.
pub fn validate_id(id: &str) -> (ok: bool)
    ensures
        ok == (id@.len() != 0),
{
    !id.is_empty()
}

} // verus!
