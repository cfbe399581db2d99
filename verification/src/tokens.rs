use vstd::prelude::*;

use vstd::arithmetic::div_mod::lemma_fundamental_div_mod;
use vstd::arithmetic::div_mod::lemma_fundamental_div_mod_converse;
use vstd::arithmetic::div_mod::lemma_mod_bound;
use vstd::arithmetic::mul::lemma_mul_is_distributive_add;

use rand::seq::SliceRandom;

verus! {

/// One upstream credential: a display name for attribution and the secret
/// bearer value itself. The secret must never appear in anything sent back
/// to a caller; only `name` may.
pub struct Token {
    pub name: String,
    pub token: String,
}

impl Clone for Token {
    fn clone(&self) -> (t: Token)
        ensures
            t == *self,
    {
        Token { name: self.name.clone(), token: self.token.clone() }
    }
}

/// The mathematical image of one pool slot: the credential it holds and how
/// many times that credential has been handed out so far.
pub ghost struct Entry {
    pub token: Token,
    pub count: nat,
}

struct PoolEntry {
    token: Token,
    counter: u32,
}

/// The credential pool. It hands credentials out one at a time, always
/// picking the least-used one; ties go to the earlier slot, whose position
/// was fixed by a random permutation at construction.
pub struct TokensBalencer {
    entries: Vec<PoolEntry>,
}

/// The index of the first entry whose usage count is minimal.
pub open spec fn first_min_index(s: Seq<Entry>) -> int
    recommends
        s.len() > 0,
    decreases s.len(),
{
    if s.len() <= 1 {
        0
    } else {
        let r = first_min_index(s.drop_last());
        if s.last().count < s[r].count {
            s.len() - 1
        } else {
            r
        }
    }
}

pub open spec fn bumped(e: Entry) -> Entry {
    Entry { token: e.token, count: e.count + 1 }
}

/// One acquisition: the first least-used entry gets its count raised by one.
pub open spec fn bump(s: Seq<Entry>) -> Seq<Entry>
    recommends
        s.len() > 0,
{
    s.update(first_min_index(s), bumped(s[first_min_index(s)]))
}

/// The credential that one acquisition hands out.
pub open spec fn bump_result(s: Seq<Entry>) -> Token
    recommends
        s.len() > 0,
{
    s[first_min_index(s)].token
}

/// The pool after `k` successive acquisitions.
pub open spec fn iterate_bump(s: Seq<Entry>, k: nat) -> Seq<Entry>
    decreases k,
{
    if k == 0 {
        s
    } else {
        bump(iterate_bump(s, (k - 1) as nat))
    }
}

/// The aggregate usage over all entries.
pub open spec fn total_count(s: Seq<Entry>) -> nat
    decreases s.len(),
{
    if s.len() == 0 {
        0
    } else {
        total_count(s.drop_last()) + s.last().count
    }
}

/// No two usage counts are more than one apart.
pub open spec fn balanced(s: Seq<Entry>) -> bool {
    forall|i: int, j: int|
        0 <= i < s.len() && 0 <= j < s.len() ==> s[i].count <= s[j].count + 1
}

pub open spec fn all_counts_zero(s: Seq<Entry>) -> bool {
    forall|i: int| 0 <= i < s.len() ==> s[i].count == 0
}

pub open spec fn counts_below_max(s: Seq<Entry>) -> bool {
    forall|i: int| 0 <= i < s.len() ==> s[i].count < u32::MAX
}

/// The credentials held by the pool, in slot order.
pub open spec fn tokens_of(s: Seq<Entry>) -> Seq<Token> {
    s.map_values(|e: Entry| e.token)
}

impl View for TokensBalencer {
    type V = Seq<Entry>;

    closed spec fn view(&self) -> Seq<Entry> {
        self.entries@.map_values(|e: PoolEntry| Entry { token: e.token, count: e.counter as nat })
    }
}

/// `first_min_index` lands in range, on a minimal count, and on the first
/// slot holding that minimal count.
pub proof fn lemma_first_min_index_props(s: Seq<Entry>)
    requires
        s.len() > 0,
    ensures
        0 <= first_min_index(s) < s.len(),
        forall|j: int| 0 <= j < s.len() ==> s[first_min_index(s)].count <= #[trigger] s[j].count,
        forall|j: int| 0 <= j < first_min_index(s) ==> #[trigger] s[j].count > s[first_min_index(s)].count,
    decreases s.len(),
{
    if s.len() > 1 {
        lemma_first_min_index_props(s.drop_last());
        assert(forall|j: int| 0 <= j < s.len() - 1 ==> s.drop_last()[j] == s[j]);
    }
}

/// Only one index can be minimal-and-first, so anything satisfying the three
/// properties above is `first_min_index` itself.
proof fn lemma_first_min_index_unique(s: Seq<Entry>, i: int)
    requires
        s.len() > 0,
        0 <= i < s.len(),
        forall|j: int| 0 <= j < s.len() ==> s[i].count <= #[trigger] s[j].count,
        forall|j: int| 0 <= j < i ==> #[trigger] s[j].count > s[i].count,
    ensures
        i == first_min_index(s),
{
    lemma_first_min_index_props(s);
    let m = first_min_index(s);
    if i < m {
        assert(s[i].count > s[m].count);
        assert(s[m].count >= s[i].count);
    } else if m < i {
        assert(s[m].count > s[i].count);
        assert(s[i].count >= s[m].count);
    }
}

proof fn lemma_total_count_update(s: Seq<Entry>, i: int, e: Entry)
    requires
        0 <= i < s.len(),
    ensures
        total_count(s.update(i, e)) + s[i].count == total_count(s) + e.count,
    decreases s.len(),
{
    if i == s.len() - 1 {
        assert(s.update(i, e).drop_last() =~= s.drop_last());
    } else {
        lemma_total_count_update(s.drop_last(), i, e);
        assert(s.update(i, e).drop_last() =~= s.drop_last().update(i, e));
    }
}

/// One acquisition keeps the pool's size and credentials, adds exactly one
/// to the aggregate usage, and keeps the usage counts balanced.
pub proof fn lemma_bump_step(s: Seq<Entry>)
    requires
        s.len() > 0,
    ensures
        bump(s).len() == s.len(),
        tokens_of(bump(s)) == tokens_of(s),
        total_count(bump(s)) == total_count(s) + 1,
        balanced(s) ==> balanced(bump(s)),
{
    lemma_first_min_index_props(s);
    let m = first_min_index(s);
    lemma_total_count_update(s, m, bumped(s[m]));
    assert(tokens_of(bump(s)) =~= tokens_of(s));
    if balanced(s) {
        assert forall|i: int, j: int|
            0 <= i < bump(s).len() && 0 <= j < bump(s).len() implies bump(s)[i].count <= bump(
            s,
        )[j].count + 1 by {
            assert(s[m].count <= s[i].count);
            assert(s[m].count <= s[j].count);
            assert(s[i].count <= s[j].count + 1);
        }
    }
}

/// Fairness: starting from a freshly built pool, where every usage count is
/// zero, any number of acquisitions leaves no two usage counts more than one
/// apart.
pub proof fn lemma_fairness(s: Seq<Entry>, m: nat)
    requires
        s.len() > 0,
        all_counts_zero(s),
    ensures
        iterate_bump(s, m).len() == s.len(),
        balanced(iterate_bump(s, m)),
    decreases m,
{
    if m == 0 {
        assert(balanced(s));
    } else {
        lemma_fairness(s, (m - 1) as nat);
        lemma_bump_step(iterate_bump(s, (m - 1) as nat));
    }
}

/// Conservation: `m` acquisitions add exactly `m` to the aggregate usage, so
/// serialized callers never lose an update.
pub proof fn lemma_total_acquisitions(s: Seq<Entry>, m: nat)
    requires
        s.len() > 0,
    ensures
        iterate_bump(s, m).len() == s.len(),
        total_count(iterate_bump(s, m)) == total_count(s) + m,
    decreases m,
{
    if m > 0 {
        lemma_total_acquisitions(s, (m - 1) as nat);
        lemma_bump_step(iterate_bump(s, (m - 1) as nat));
    }
}

/// Initialization order independence: from a fresh pool, the first `n`
/// acquisitions hand out the pool's `n` credentials in slot order, so each
/// one is handed out exactly once, whatever order the shuffle produced.
pub proof fn lemma_initial_rotation(s: Seq<Entry>)
    requires
        s.len() > 0,
        all_counts_zero(s),
    ensures
        Seq::new(s.len(), |k: int| bump_result(iterate_bump(s, k as nat))) == tokens_of(s),
{
    let n = s.len() as int;
    assert forall|k: int| 0 <= k < s.len() implies bump_result(iterate_bump(s, k as nat)) == s[k].token by {
        lemma_round_robin(s, k as nat);
        lemma_fundamental_div_mod_converse(k, n, 0, k);
        let t = iterate_bump(s, k as nat);
        assert(forall|j: int| 0 <= j < n ==> t[k].count <= #[trigger] t[j].count);
        assert(forall|j: int| 0 <= j < k ==> #[trigger] t[j].count > t[k].count);
        lemma_first_min_index_unique(t, k);
    }
    assert(Seq::new(s.len(), |k: int| bump_result(iterate_bump(s, k as nat))) =~= tokens_of(s));
}

/// The exact round-robin shape of a fresh pool's usage: after `m`
/// acquisitions from `n` slots, the first `m % n` slots have been used
/// `m / n + 1` times and the rest `m / n` times — usage spreads as evenly as
/// whole numbers allow, and no credential ever moves.
pub proof fn lemma_round_robin(s: Seq<Entry>, m: nat)
    requires
        s.len() > 0,
        all_counts_zero(s),
    ensures
        iterate_bump(s, m).len() == s.len(),
        forall|i: int| 0 <= i < s.len() ==> #[trigger] iterate_bump(s, m)[i].token == s[i].token,
        forall|i: int|
            0 <= i < s.len() ==> #[trigger] iterate_bump(s, m)[i].count as int == (m as int) / (
            s.len() as int) + if i < (m as int) % (s.len() as int) {
                1int
            } else {
                0int
            },
    decreases m,
{
    let n = s.len() as int;
    if m == 0 {
        lemma_fundamental_div_mod_converse(0, n, 0, 0);
    } else {
        lemma_round_robin(s, (m - 1) as nat);
        let t = iterate_bump(s, (m - 1) as nat);
        let q = (m - 1) as int / n;
        let r = (m - 1) as int % n;
        lemma_mod_bound((m - 1) as int, n);
        lemma_fundamental_div_mod((m - 1) as int, n);
        assert(forall|j: int| 0 <= j < n ==> t[r].count <= #[trigger] t[j].count);
        assert(forall|j: int| 0 <= j < r ==> #[trigger] t[j].count > t[r].count);
        lemma_first_min_index_unique(t, r);
        assert((m - 1) as int == n * q + r);
        assert(n * q == q * n) by (nonlinear_arith);
        if r + 1 < n {
            assert(m as int == q * n + (r + 1));
            lemma_fundamental_div_mod_converse(m as int, n, q, r + 1);
        } else {
            lemma_mul_is_distributive_add(n, q, 1);
            assert(n * (q + 1) == n * q + n * 1);
            assert(n * (q + 1) == (q + 1) * n) by (nonlinear_arith);
            assert(m as int == (q + 1) * n + 0);
            lemma_fundamental_div_mod_converse(m as int, n, q + 1, 0);
        }
    }
}

/// At any exact multiple of the pool size, every usage count is exactly the
/// number of completed rounds: perfectly even spread.
pub proof fn lemma_equal_counts_at_multiples(s: Seq<Entry>, k: nat)
    requires
        s.len() > 0,
        all_counts_zero(s),
    ensures
        forall|i: int|
            0 <= i < s.len() ==> #[trigger] iterate_bump(s, k * s.len())[i].count == k,
{
    let n = s.len() as int;
    lemma_round_robin(s, k * s.len());
    lemma_fundamental_div_mod_converse((k * s.len()) as int, n, k as int, 0);
}

/// Relies on rand's `SliceRandom::shuffle`: an in-place Fisher-Yates
/// permutation of the slice, driven by the thread-local generator. Whatever
/// order comes out, the slice holds the same elements as before.
#[verifier::external_body]
fn shuffle_tokens(tokens: &mut Vec<Token>)
    ensures
        final(tokens)@.len() == old(tokens)@.len(),
        final(tokens)@.to_multiset() == old(tokens)@.to_multiset(),
{
    tokens.shuffle(&mut rand::rng());
}

impl TokensBalencer {
    /// Builds a pool out of the given credentials: the list is randomly
    /// permuted once, and every usage count starts at zero. The permutation
    /// fixes the tie-break order for the pool's whole lifetime.
    pub fn from(tokens: Vec<Token>) -> (pool: TokensBalencer)
        ensures
            pool@.len() == tokens@.len(),
            all_counts_zero(pool@),
            tokens_of(pool@).to_multiset() == tokens@.to_multiset(),
    {
        let mut ts = tokens;
        shuffle_tokens(&mut ts);
        let mut entries: Vec<PoolEntry> = Vec::new();
        let mut i: usize = 0;
        while i < ts.len()
            invariant
                0 <= i <= ts@.len(),
                entries@.len() == i,
                forall|j: int|
                    0 <= j < i ==> #[trigger] entries@[j].token == ts@[j]
                        && entries@[j].counter == 0,
            decreases ts@.len() - i,
        {
            entries.push(PoolEntry { token: ts[i].clone(), counter: 0 });
            i += 1;
        }
        let pool = TokensBalencer { entries };
        proof {
            assert(tokens_of(pool@) =~= ts@);
        }
        pool
    }

    /// The number of credentials in the pool.
    pub fn len(&self) -> (n: usize)
        ensures
            n == self@.len(),
    {
        self.entries.len()
    }

    /// The usage counts, slot by slot, for observation from outside.
    pub fn usage_counts(&self) -> (v: Vec<u32>)
        ensures
            v@.len() == self@.len(),
            forall|i: int| 0 <= i < self@.len() ==> #[trigger] v@[i] as nat == self@[i].count,
    {
        let mut v: Vec<u32> = Vec::new();
        let mut i: usize = 0;
        while i < self.entries.len()
            invariant
                0 <= i <= self@.len(),
                v@.len() == i,
                forall|j: int| 0 <= j < i ==> #[trigger] v@[j] as nat == self@[j].count,
            decreases self@.len() - i,
        {
            v.push(self.entries[i].counter);
            i += 1;
        }
        v
    }

    /// Hands out the least-used credential, raising its usage count by one;
    /// ties go to the earlier slot. An empty pool yields `None` at once,
    /// untouched: acquisition never blocks.
    pub fn next(&mut self) -> (r: Option<Token>)
        requires
            counts_below_max(old(self)@),
        ensures
            old(self)@.len() == 0 ==> r is None && final(self)@ == old(self)@,
            old(self)@.len() > 0 ==> r == Some(bump_result(old(self)@)) && final(self)@ == bump(
                old(self)@,
            ),
    {
        if self.entries.len() == 0 {
            return None;
        }
        let mut best: usize = 0;
        let mut i: usize = 1;
        while i < self.entries.len()
            invariant
                *self == *old(self),
                1 <= i <= self@.len(),
                0 <= best < i,
                forall|j: int| 0 <= j < i ==> self@[best as int].count <= #[trigger] self@[j].count,
                forall|j: int| 0 <= j < best ==> #[trigger] self@[j].count > self@[best as int].count,
            decreases self@.len() - i,
        {
            if self.entries[i].counter < self.entries[best].counter {
                best = i;
            }
            i += 1;
        }
        proof {
            lemma_first_min_index_unique(self@, best as int);
        }
        let c: u32 = self.entries[best].counter;
        let t: Token = self.entries[best].token.clone();
        self.entries[best].counter = c + 1;
        proof {
            assert(self@ =~= bump(old(self)@));
        }
        Some(t)
    }
}

} // verus!
