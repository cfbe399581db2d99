use vstd::prelude::*;
use vstd::string::StringExecFns;

verus! {

/// Every failure on the request path, in the order it can arise: local
/// rejection, pool exhaustion, an internal guard fault, then the upstream
/// call itself. The string variants carry the underlying cause's text.
pub enum ProxyError {
    /// The caller failed the local bearer gate.
    Auth,
    /// No credential is available: the pool is empty.
    PoolExhausted,
    /// The pool's exclusive-access guard could not be taken.
    LockFailure,
    /// The upstream could not be reached or failed mid-request.
    Transport(String),
    /// The upstream body could not be fully read while buffering.
    BodyRead(String),
    /// Strict mode only: the upstream payload did not match the expected
    /// shape.
    SchemaValidation(String),
}

impl ProxyError {
    /// The HTTP status each failure maps to.
    pub open spec fn spec_status(&self) -> u16 {
        match self {
            ProxyError::Auth => 401,
            ProxyError::PoolExhausted => 503,
            ProxyError::LockFailure => 500,
            ProxyError::Transport(_) => 500,
            ProxyError::BodyRead(_) => 500,
            ProxyError::SchemaValidation(_) => 500,
        }
    }

    /// The text of the status code, for the envelope body.
    pub open spec fn spec_status_text(&self) -> Seq<char> {
        match self {
            ProxyError::Auth => "401"@,
            ProxyError::PoolExhausted => "503"@,
            _ => "500"@,
        }
    }

    /// The human-readable message each failure carries.
    pub open spec fn spec_message(&self) -> Seq<char> {
        match self {
            ProxyError::Auth => "Unauthorized token"@,
            ProxyError::PoolExhausted => "No more tokens"@,
            ProxyError::LockFailure => "Unable to lock the tokens balancer"@,
            ProxyError::Transport(m) => m@,
            ProxyError::BodyRead(m) => m@,
            ProxyError::SchemaValidation(m) => m@,
        }
    }

    /// The uniform JSON error envelope every failure is reported in.
    pub open spec fn spec_envelope(&self) -> Seq<char> {
        "{\"error\":{\"code\":"@ + self.spec_status_text() + ",\"message\":\""@
            + self.spec_message() + "\"}}"@
    }

    pub fn status(&self) -> (c: u16)
        ensures
            c == self.spec_status(),
    {
        match self {
            ProxyError::Auth => 401,
            ProxyError::PoolExhausted => 503,
            ProxyError::LockFailure => 500,
            ProxyError::Transport(_) => 500,
            ProxyError::BodyRead(_) => 500,
            ProxyError::SchemaValidation(_) => 500,
        }
    }

    /// Renders the uniform envelope for this failure, byte for byte.
    pub fn envelope(&self) -> (s: String)
        ensures
            s@ == self.spec_envelope(),
    {
        let mut s = String::from_str("{\"error\":{\"code\":");
        match self {
            ProxyError::Auth => {
                s.append("401");
                s.append(",\"message\":\"");
                s.append("Unauthorized token");
            },
            ProxyError::PoolExhausted => {
                s.append("503");
                s.append(",\"message\":\"");
                s.append("No more tokens");
            },
            ProxyError::LockFailure => {
                s.append("500");
                s.append(",\"message\":\"");
                s.append("Unable to lock the tokens balancer");
            },
            ProxyError::Transport(m) => {
                s.append("500");
                s.append(",\"message\":\"");
                s.append(m.as_str());
            },
            ProxyError::BodyRead(m) => {
                s.append("500");
                s.append(",\"message\":\"");
                s.append(m.as_str());
            },
            ProxyError::SchemaValidation(m) => {
                s.append("500");
                s.append(",\"message\":\"");
                s.append(m.as_str());
            },
        }
        s.append("\"}}");
        s
    }
}

} // verus!
