use openrouter_proxy::Token;
use openrouter_proxy::TokensBalencer;

fn tok(name: &str, secret: &str) -> Token {
    Token { name: String::from(name), token: String::from(secret) }
}

fn three_pool() -> TokensBalencer {
    TokensBalencer::from(vec![tok("a", "s1"), tok("b", "s2"), tok("c", "s3")])
}

#[test]
fn fairness_at_multiples_of_pool_size() {
    let mut pool = three_pool();
    for k in 1..5u32 {
        for _ in 0..3 {
            assert!(pool.next().is_some());
        }
        let counts = pool.usage_counts();
        let max = counts.iter().max().copied().unwrap();
        let min = counts.iter().min().copied().unwrap();
        assert!(max - min <= 1);
        // at a multiple of the pool size the counts are in fact all equal
        assert!(counts.iter().all(|c| *c == k));
    }
}

#[test]
fn fairness_at_every_point() {
    let mut pool = three_pool();
    for _ in 0..20 {
        assert!(pool.next().is_some());
        let counts = pool.usage_counts();
        let max = counts.iter().max().copied().unwrap();
        let min = counts.iter().min().copied().unwrap();
        assert!(max - min <= 1);
    }
}

#[test]
fn serialized_callers_lose_no_update() {
    // 4 callers of 5 acquisitions each, serialized as the pool's lock does
    let mut pool = three_pool();
    for _ in 0..4 {
        for _ in 0..5 {
            assert!(pool.next().is_some());
        }
    }
    let total: u32 = pool.usage_counts().iter().sum();
    assert_eq!(total, 20);
}

#[test]
fn exhaustion_on_empty_pool() {
    let mut pool = TokensBalencer::from(vec![]);
    assert_eq!(pool.len(), 0);
    for _ in 0..3 {
        assert!(pool.next().is_none());
    }
}

#[test]
fn first_acquisitions_cover_every_credential_once() {
    let mut pool = three_pool();
    let mut seen: Vec<String> = Vec::new();
    for _ in 0..3 {
        let t = pool.next().unwrap();
        seen.push(t.name);
    }
    seen.sort();
    assert_eq!(seen, vec![String::from("a"), String::from("b"), String::from("c")]);
}

#[test]
fn pool_keeps_the_credentials_given() {
    let pool = TokensBalencer::from(vec![tok("x", "sx"), tok("y", "sy")]);
    assert_eq!(pool.len(), 2);
    let counts = pool.usage_counts();
    assert_eq!(counts, vec![0, 0]);
}

#[test]
fn acquired_credential_carries_its_own_secret() {
    let mut pool = TokensBalencer::from(vec![tok("only", "the-secret")]);
    let t1 = pool.next().unwrap();
    assert_eq!(t1.name, "only");
    assert_eq!(t1.token, "the-secret");
    let t2 = pool.next().unwrap();
    assert_eq!(t2.name, "only");
    assert_eq!(pool.usage_counts(), vec![2]);
}
