use openrouter_proxy::Admission;
use openrouter_proxy::AuthGate;
use openrouter_proxy::ProxyError;
use openrouter_proxy::Token;
use openrouter_proxy::TokensBalencer;
use openrouter_proxy::pipeline::admit_request;

fn tok(name: &str, secret: &str) -> Token {
    Token { name: String::from(name), token: String::from(secret) }
}

fn list_gate() -> AuthGate {
    AuthGate::AllowList(vec![String::from("alpha"), String::from("beta")])
}

#[test]
fn allow_all_accepts_anything() {
    let gate = AuthGate::AllowAll;
    assert!(gate.check(None).is_ok());
    assert!(gate.check(Some("Bearer whatever")).is_ok());
    assert!(gate.check(Some("")).is_ok());
}

#[test]
fn allow_list_accepts_listed_bearer() {
    let gate = list_gate();
    assert!(gate.check(Some("Bearer alpha")).is_ok());
    assert!(gate.check(Some("Bearer beta")).is_ok());
}

#[test]
fn allow_list_accepts_bare_value_without_prefix() {
    let gate = list_gate();
    assert!(gate.check(Some("alpha")).is_ok());
}

#[test]
fn allow_list_rejects_missing_malformed_and_unlisted_alike() {
    let gate = list_gate();
    assert!(gate.check(None).is_err());
    assert!(gate.check(Some("Bearer gamma")).is_err());
    assert!(gate.check(Some("gamma")).is_err());
    assert!(gate.check(Some("Bearer ")).is_err());
    assert!(gate.check(Some("")).is_err());
    // the prefix must match exactly to be stripped
    assert!(gate.check(Some("bearer alpha")).is_err());
}

#[test]
fn rejected_caller_leaves_pool_untouched() {
    let gate = list_gate();
    let mut pool = TokensBalencer::from(vec![tok("a", "s1"), tok("b", "s2")]);
    let before = pool.usage_counts();
    let a = admit_request(&gate, &mut pool, Some("Bearer gamma"));
    match a {
        Admission::Reject(ProxyError::Auth) => {}
        _ => panic!("expected an auth rejection"),
    }
    assert_eq!(pool.usage_counts(), before);
}

#[test]
fn valid_caller_on_empty_pool_gets_exhausted_envelope() {
    let gate = list_gate();
    let mut pool = TokensBalencer::from(vec![]);
    let a = admit_request(&gate, &mut pool, Some("Bearer alpha"));
    match a {
        Admission::Reject(e) => {
            assert_eq!(e.status(), 503);
            assert_eq!(
                e.envelope(),
                "{\"error\":{\"code\":503,\"message\":\"No more tokens\"}}"
            );
        }
        Admission::Forward(_) => panic!("nothing to forward with"),
    }
}

#[test]
fn valid_caller_gets_a_credential_and_one_count() {
    let gate = list_gate();
    let mut pool = TokensBalencer::from(vec![tok("a", "s1")]);
    let a = admit_request(&gate, &mut pool, Some("Bearer alpha"));
    match a {
        Admission::Forward(t) => {
            assert_eq!(t.name, "a");
            assert_eq!(t.token, "s1");
        }
        Admission::Reject(_) => panic!("expected a credential"),
    }
    assert_eq!(pool.usage_counts(), vec![1]);
}

#[test]
fn auth_rejection_envelope_is_the_documented_one() {
    let e = ProxyError::Auth;
    assert_eq!(e.status(), 401);
    assert_eq!(
        e.envelope(),
        "{\"error\":{\"code\":401,\"message\":\"Unauthorized token\"}}"
    );
}
