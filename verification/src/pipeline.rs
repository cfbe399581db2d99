use vstd::prelude::*;

use crate::auth::AuthGate;
use crate::auth::view_opt_str;
use crate::errors::ProxyError;
use crate::tokens::Token;
use crate::tokens::TokensBalencer;
use crate::tokens::bump;
use crate::tokens::bump_result;
use crate::tokens::counts_below_max;

verus! {

/// The admission decision for one inbound request: forward it upstream under
/// the given credential, or stop now and emit an error.
pub enum Admission {
    Forward(Token),
    Reject(ProxyError),
}

/// The front of the per-request pipeline: the auth gate runs first, and only
/// a caller it passes can touch the pool. A rejected caller is turned away
/// with 401 before any pool state changes; a passed caller against an empty
/// pool gets 503; otherwise the least-used credential is acquired and the
/// request proceeds upstream with it.
pub fn admit_request(gate: &AuthGate, pool: &mut TokensBalencer, authorization: Option<&str>) -> (a:
    Admission)
    requires
        counts_below_max(old(pool)@),
    ensures
        !gate.allows_header(view_opt_str(authorization)) ==> a == Admission::Reject(
            ProxyError::Auth,
        ) && final(pool)@ == old(pool)@,
        gate.allows_header(view_opt_str(authorization)) && old(pool)@.len() == 0 ==> a
            == Admission::Reject(ProxyError::PoolExhausted) && final(pool)@ == old(pool)@,
        gate.allows_header(view_opt_str(authorization)) && old(pool)@.len() > 0 ==> a
            == Admission::Forward(bump_result(old(pool)@)) && final(pool)@ == bump(old(pool)@),
{
    match gate.check(authorization) {
        Err(_) => Admission::Reject(ProxyError::Auth),
        Ok(()) => match pool.next() {
            None => Admission::Reject(ProxyError::PoolExhausted),
            Some(t) => Admission::Forward(t),
        },
    }
}

} // verus!
