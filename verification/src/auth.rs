use vstd::prelude::*;
use vstd::string::StrSliceExecFns;

verus! {

/// A caller failed the local bearer gate: the authorization header was
/// missing, malformed, or its bearer value is not on the allow-list.
#[derive(Debug)]
pub struct AuthError;

/// The view of an optional header value.
pub open spec fn view_opt_str(h: Option<&str>) -> Option<Seq<char>> {
    match h {
        Some(s) => Some(s@),
        None => None,
    }
}

/// The bearer value carried by an authorization header: the part after a
/// literal `"Bearer "` prefix, or the whole header when that prefix is
/// absent.
pub open spec fn bearer_of(h: Seq<char>) -> Seq<char> {
    if h.len() >= 7 && h.subrange(0, 7) == "Bearer "@ {
        h.subrange(7, h.len() as int)
    } else {
        h
    }
}

/// Character-for-character equality of two string slices.
pub fn str_eq(a: &str, b: &str) -> (r: bool)
    ensures
        r == (a@ == b@),
{
    let na = a.unicode_len();
    let nb = b.unicode_len();
    if na != nb {
        return false;
    }
    let mut i: usize = 0;
    while i < na
        invariant
            na == a@.len(),
            nb == b@.len(),
            na == nb,
            0 <= i <= na,
            forall|j: int| 0 <= j < i ==> a@[j] == b@[j],
        decreases na - i,
    {
        if a.get_char(i) != b.get_char(i) {
            return false;
        }
        i += 1;
    }
    proof {
        assert(a@ =~= b@);
    }
    true
}

/// Membership of a bearer value in the allow-list, by string contents.
fn list_member(list: &Vec<String>, tok: &str) -> (r: bool)
    ensures
        r == exists|i: int| 0 <= i < list@.len() && list@[i]@ == tok@,
{
    let mut i: usize = 0;
    while i < list.len()
        invariant
            0 <= i <= list@.len(),
            forall|j: int| 0 <= j < i ==> list@[j]@ != tok@,
        decreases list@.len() - i,
    {
        if str_eq(list[i].as_str(), tok) {
            proof {
                assert(list@[i as int]@ == tok@);
            }
            return true;
        }
        i += 1;
    }
    false
}

/// Strips an optional `"Bearer "` prefix off the header value.
fn strip_bearer(h: &str) -> (r: &str)
    ensures
        r@ == bearer_of(h@),
{
    let n = h.unicode_len();
    if n >= 7 {
        let p = h.substring_char(0, 7);
        if str_eq(p, "Bearer ") {
            return h.substring_char(7, n);
        }
    }
    h
}

/// The local bearer-token gate in front of the proxy. The variant is picked
/// once, at construction: a deployment without an allow-list accepts every
/// caller, one with a list accepts exactly the listed bearer secrets.
pub enum AuthGate {
    /// The null variant: every caller passes (gating disabled).
    AllowAll,
    /// Only callers presenting a bearer secret on this list pass.
    AllowList(Vec<String>),
}

impl AuthGate {
    /// Whether a given bearer value is acceptable to this gate.
    pub open spec fn allows(&self, token: Seq<char>) -> bool {
        match self {
            AuthGate::AllowAll => true,
            AuthGate::AllowList(list) => exists|i: int| 0 <= i < list@.len() && list@[i]@ == token,
        }
    }

    /// Whether a request carrying the given authorization header passes.
    /// With a list in force, a missing header never passes.
    pub open spec fn allows_header(&self, header: Option<Seq<char>>) -> bool {
        match self {
            AuthGate::AllowAll => true,
            AuthGate::AllowList(_) => header matches Some(h) && self.allows(bearer_of(h)),
        }
    }

    /// Validates an inbound authorization header: extracts the bearer value
    /// (an optional `"Bearer "` prefix is stripped) and tests membership in
    /// the allow-list. A missing header and an unlisted bearer value are
    /// rejected alike; the null variant accepts unconditionally.
    pub fn check(&self, header: Option<&str>) -> (r: Result<(), AuthError>)
        ensures
            r is Ok <==> self.allows_header(view_opt_str(header)),
    {
        match self {
            AuthGate::AllowAll => Ok(()),
            AuthGate::AllowList(list) => match header {
                None => Err(AuthError),
                Some(h) => {
                    if list_member(list, strip_bearer(h)) {
                        Ok(())
                    } else {
                        Err(AuthError)
                    }
                },
            },
        }
    }
}

} // verus!
