//! The quadratic funding formula: each grant's weight (its "CLR") is the
//! square of the sum of the integer square roots of its contributions, and the
//! matching pool is shared out in proportion to these weights.
use integer_sqrt::IntegerSquareRoot;
use vstd::prelude::*;

use crate::types::{Balance, Contribution, GrantRound, GrantView};

verus! {

/// Whether `r` is the floor of the square root of `n`.
pub open spec fn is_floor_sqrt(n: nat, r: nat) -> bool {
    r * r <= n && n < (r + 1) * (r + 1)
}

/// The floor of the square root of `n`: the one `r` with `r * r <= n < (r + 1) * (r + 1)`.
pub open spec fn floor_sqrt(n: nat) -> nat {
    choose|r: nat| #[trigger] is_floor_sqrt(n, r)
}

/// Any `r` with `r * r <= n < (r + 1) * (r + 1)` is `floor_sqrt(n)`.
pub proof fn lemma_floor_sqrt_unique(n: nat, r: nat)
    requires
        r * r <= n,
        n < (r + 1) * (r + 1),
    ensures
        floor_sqrt(n) == r,
{
    assert(is_floor_sqrt(n, r));
    let s = floor_sqrt(n);
    assert(s * s <= n && n < (s + 1) * (s + 1));
    if s < r {
        assert((s + 1) * (s + 1) <= r * r) by (nonlinear_arith)
            requires
                s < r,
        ;
    } else if r < s {
        assert((r + 1) * (r + 1) <= s * s) by (nonlinear_arith)
            requires
                r < s,
        ;
    }
}

/// `IntegerSquareRoot::integer_sqrt` of the `integer-sqrt` crate, on `u128`.
/// Its documentation names it the integer square root, the source computes it
/// by the binary digit-by-digit method, and for unsigned types it never
/// panics. The contract claims the floor of the square root:
/// `r * r <= n < (r + 1) * (r + 1)`.
#[verifier::external_body]
fn integer_sqrt(n: u128) -> (r: u128)
    ensures
        r * r <= n,
        n < (r + 1) * (r + 1),
{
    n.integer_sqrt()
}

/// The sum of the integer square roots of the values of the contributions.
pub open spec fn sqrt_sum(contributions: Seq<Contribution>) -> nat
    decreases contributions.len(),
{
    if contributions.len() == 0 {
        0
    } else {
        sqrt_sum(contributions.drop_last()) + floor_sqrt(contributions.last().value as nat)
    }
}

/// The weight of a grant in the sharing of the matching pool: zero for a
/// canceled grant, else the square of the sum of the square roots of its
/// contributions.
pub open spec fn clr(grant: GrantView) -> nat {
    if grant.is_canceled {
        0
    } else {
        sqrt_sum(grant.contributions) * sqrt_sum(grant.contributions)
    }
}

/// The sum of the weights of the grants.
pub open spec fn total_clr(grants: Seq<GrantView>) -> nat
    decreases grants.len(),
{
    if grants.len() == 0 {
        0
    } else {
        total_clr(grants.drop_last()) + clr(grants.last())
    }
}

/// The share of a matching pool of `pool` that a grant of weight `weight` gets
/// when all weights sum to `total`, rounded down.
pub open spec fn share(pool: nat, weight: nat, total: nat) -> nat {
    if total == 0 {
        0
    } else {
        (pool * weight) / total
    }
}

/// Whether sharing out `pool` over `grants` stays within `u128`: every weight,
/// their sum, and every product of the pool with the weight of a live grant fit,
/// and the sum of the weights is not zero where a live grant must be divided by it.
pub open spec fn sharing_fits(pool: nat, grants: Seq<GrantView>) -> bool {
    &&& forall|i: int| 0 <= i < grants.len() ==> #[trigger] clr(grants[i]) <= u128::MAX
    &&& total_clr(grants) <= u128::MAX
    &&& forall|i: int|
        0 <= i < grants.len() && !grants[i].is_canceled ==> pool * #[trigger] clr(grants[i])
            <= u128::MAX
    &&& (exists|i: int| 0 <= i < grants.len() && !grants[i].is_canceled) ==> total_clr(grants)
        > 0
}

/// The sum of a sequence of balances.
pub open spec fn sum_balances(s: Seq<Balance>) -> nat
    decreases s.len(),
{
    if s.len() == 0 {
        0
    } else {
        sum_balances(s.drop_last()) + s.last() as nat
    }
}

proof fn lemma_sqrt_bound(n: u128, r: u128)
    requires
        r * r <= n,
    ensures
        r <= 0xffff_ffff_ffff_ffffu128,
{
    if r > 0xffff_ffff_ffff_ffffu128 {
        assert(r * r >= 0x1_0000_0000_0000_0000int * 0x1_0000_0000_0000_0000int) by (nonlinear_arith)
            requires
                r >= 0x1_0000_0000_0000_0000int,
        ;
    }
}

/// The sum of the square roots of the contributions to one grant. No overflow
/// can occur: each root is below 2^64 and there are fewer than 2^64 of them.
pub fn contributions_sqrt_sum(contributions: &Vec<Contribution>) -> (r: Balance)
    ensures
        r == sqrt_sum(contributions@),
{
    let n = contributions.len();
    let mut sum: u128 = 0;
    let mut i: usize = 0;
    while i < n
        invariant
            n == contributions@.len(),
            i <= n,
            sum == sqrt_sum(contributions@.take(i as int)),
            sum <= i * 0xffff_ffff_ffff_ffffu128,
        decreases n - i,
    {
        let v = contributions[i].value;
        let root = integer_sqrt(v);
        proof {
            lemma_sqrt_bound(v, root);
            lemma_floor_sqrt_unique(v as nat, root as nat);
            assert(contributions@.take(i + 1).drop_last() =~= contributions@.take(i as int));
            assert((i + 1) * 0xffff_ffff_ffff_ffffu128 <= 0xffff_ffff_ffff_ffffu128
                * 0xffff_ffff_ffff_ffffu128) by (nonlinear_arith)
                requires
                    i + 1 <= 0xffff_ffff_ffff_ffffu128,
            ;
            assert(i * 0xffff_ffff_ffff_ffffu128 + 0xffff_ffff_ffff_ffffu128 == (i + 1)
                * 0xffff_ffff_ffff_ffffu128) by (nonlinear_arith);
        }
        sum = sum + root;
        i = i + 1;
    }
    assert(contributions@.take(n as int) =~= contributions@);
    sum
}

proof fn lemma_total_clr_step(grants: Seq<GrantView>, i: int)
    requires
        0 <= i < grants.len(),
    ensures
        total_clr(grants.take(i + 1)) == total_clr(grants.take(i)) + clr(grants[i]),
{
    assert(grants.take(i + 1).drop_last() =~= grants.take(i));
}

proof fn lemma_total_clr_prefix(grants: Seq<GrantView>, i: int)
    requires
        0 <= i <= grants.len(),
    ensures
        total_clr(grants.take(i)) <= total_clr(grants),
        forall|k: int| 0 <= k < i ==> #[trigger] clr(grants[k]) <= total_clr(grants),
    decreases grants.len() - i,
{
    if i < grants.len() {
        lemma_total_clr_step(grants, i);
        lemma_total_clr_prefix(grants, i + 1);
    } else {
        assert(grants.take(i) =~= grants);
        lemma_clr_le_total(grants);
    }
}

pub(crate) proof fn lemma_clr_le_total(grants: Seq<GrantView>)
    ensures
        forall|k: int| 0 <= k < grants.len() ==> #[trigger] clr(grants[k]) <= total_clr(grants),
    decreases grants.len(),
{
    if grants.len() > 0 {
        lemma_clr_le_total(grants.drop_last());
        assert forall|k: int| 0 <= k < grants.len() implies #[trigger] clr(grants[k]) <= total_clr(
            grants,
        ) by {
            if k < grants.len() - 1 {
                assert(grants.drop_last()[k] == grants[k]);
            }
        }
    }
}

proof fn lemma_sum_balances_step(s: Seq<Balance>, i: int)
    requires
        0 <= i < s.len(),
    ensures
        sum_balances(s.take(i + 1)) == sum_balances(s.take(i)) + s[i],
{
    assert(s.take(i + 1).drop_last() =~= s.take(i));
}

/// With `total` the sum of the weights, `total` times the sum of the first `k`
/// shares is at most `pool` times the sum of the first `k` weights.
proof fn lemma_shares_prefix(
    pool: nat,
    grants: Seq<GrantView>,
    shares: Seq<Balance>,
    total: nat,
    k: int,
)
    requires
        total > 0,
        shares.len() == grants.len(),
        0 <= k <= grants.len(),
        forall|i: int|
            0 <= i < grants.len() ==> #[trigger] shares[i] == share(pool, clr(grants[i]), total),
    ensures
        total * sum_balances(shares.take(k)) <= pool * total_clr(grants.take(k)),
    decreases k,
{
    if k > 0 {
        lemma_shares_prefix(pool, grants, shares, total, k - 1);
        lemma_sum_balances_step(shares, k - 1);
        lemma_total_clr_step(grants, k - 1);
        let a = sum_balances(shares.take(k - 1));
        let c = total_clr(grants.take(k - 1));
        let w = clr(grants[k - 1]);
        let x = pool * w;
        let q = shares[k - 1] as nat;
        assert(q == x / total);
        vstd::arithmetic::div_mod::lemma_fundamental_div_mod(x as int, total as int);
        assert(total * q <= x) by (nonlinear_arith)
            requires
                x == total * q + x % total,
                x % total >= 0,
        ;
        assert(total * (a + q) <= pool * (c + w)) by (nonlinear_arith)
            requires
                total * a <= pool * c,
                total * q <= pool * w,
        ;
        assert(sum_balances(shares.take(k)) == a + q);
        assert(total_clr(grants.take(k)) == c + w);
        assert(total * sum_balances(shares.take(k)) <= pool * total_clr(grants.take(k)));
    } else {
        assert(sum_balances(shares.take(0)) == 0);
        assert(total_clr(grants.take(0)) == 0);
        assert(total * 0 <= pool * 0) by (nonlinear_arith);
    }
}

/// When the shares are the rounded-down proportional shares, they add up to at
/// most the pool.
pub proof fn lemma_shares_within_pool(pool: nat, grants: Seq<GrantView>, shares: Seq<Balance>)
    requires
        shares.len() == grants.len(),
        forall|i: int|
            0 <= i < grants.len() ==> #[trigger] shares[i] == share(
                pool,
                clr(grants[i]),
                total_clr(grants),
            ),
    ensures
        sum_balances(shares) <= pool,
{
    let total = total_clr(grants);
    if total > 0 {
        lemma_shares_prefix(pool, grants, shares, total, grants.len() as int);
        assert(shares.take(shares.len() as int) =~= shares);
        assert(grants.take(grants.len() as int) =~= grants);
        let s = sum_balances(shares);
        assert(s <= pool) by (nonlinear_arith)
            requires
                total > 0,
                total * s <= pool * total,
        ;
    } else {
        lemma_zero_shares(shares, shares.len() as int);
        assert(shares.take(shares.len() as int) =~= shares);
    }
}

/// With `total` the sum of the weights, each share falls short of its exact
/// proportion by less than one: `total` times the sum of the first `k` shares,
/// plus `k` times `total`, is at least `pool` times the first `k` weights plus `k`.
proof fn lemma_shares_prefix_lower(
    pool: nat,
    grants: Seq<GrantView>,
    shares: Seq<Balance>,
    total: nat,
    k: int,
)
    requires
        total > 0,
        shares.len() == grants.len(),
        0 <= k <= grants.len(),
        forall|i: int|
            0 <= i < grants.len() ==> #[trigger] shares[i] == share(pool, clr(grants[i]), total),
    ensures
        total * sum_balances(shares.take(k)) + k * total >= pool * total_clr(grants.take(k)) + k,
    decreases k,
{
    if k > 0 {
        lemma_shares_prefix_lower(pool, grants, shares, total, k - 1);
        lemma_sum_balances_step(shares, k - 1);
        lemma_total_clr_step(grants, k - 1);
        let a = sum_balances(shares.take(k - 1));
        let c = total_clr(grants.take(k - 1));
        let w = clr(grants[k - 1]);
        let x = pool * w;
        let q = shares[k - 1] as nat;
        assert(q == x / total);
        vstd::arithmetic::div_mod::lemma_fundamental_div_mod(x as int, total as int);
        vstd::arithmetic::div_mod::lemma_mod_bound(x as int, total as int);
        let r = x % total;
        assert(x == total * q + r);
        assert(r < total);
        assert(total * q + total >= x + 1);
        assert(total * (a + q) + k * total >= pool * (c + w) + k) by (nonlinear_arith)
            requires
                total * a + (k - 1) * total >= pool * c + (k - 1),
                total * q + total >= pool * w + 1,
        ;
        assert(sum_balances(shares.take(k)) == a + q);
        assert(total_clr(grants.take(k)) == c + w);
    } else {
        assert(sum_balances(shares.take(0)) == 0);
        assert(total_clr(grants.take(0)) == 0);
        assert(total * 0 + 0 * total >= pool * 0 + 0) by (nonlinear_arith);
    }
}

/// When the weights are not all zero, the rounded-down shares fall short of
/// the pool by less than one unit per grant: they and the number of grants add
/// up to more than the pool.
pub proof fn lemma_shares_near_pool(pool: nat, grants: Seq<GrantView>, shares: Seq<Balance>)
    requires
        shares.len() == grants.len(),
        total_clr(grants) > 0,
        forall|i: int|
            0 <= i < grants.len() ==> #[trigger] shares[i] == share(
                pool,
                clr(grants[i]),
                total_clr(grants),
            ),
    ensures
        sum_balances(shares) + shares.len() > pool,
{
    let total = total_clr(grants);
    let n = grants.len() as int;
    lemma_shares_prefix_lower(pool, grants, shares, total, n);
    assert(shares.take(n) =~= shares);
    assert(grants.take(n) =~= grants);
    let s = sum_balances(shares);
    assert(s + n > pool) by (nonlinear_arith)
        requires
            total > 0,
            n >= 1,
            total * s + n * total >= pool * total + n,
    ;
}

proof fn lemma_zero_shares(shares: Seq<Balance>, k: int)
    requires
        0 <= k <= shares.len(),
        forall|i: int| 0 <= i < shares.len() ==> #[trigger] shares[i] == 0,
    ensures
        sum_balances(shares.take(k)) == 0,
    decreases k,
{
    if k > 0 {
        lemma_zero_shares(shares, k - 1);
        lemma_sum_balances_step(shares, k - 1);
    }
}

impl GrantRound {
    /// The share of the matching pool that each grant of the round gets, in
    /// the order of the grants: `matching_fund * clr / total_clr` rounded down,
    /// zero for a canceled grant. `None` exactly where the computation would
    /// leave `u128` or divide by zero (see [`sharing_fits`]). The shares never
    /// add up to more than the pool.
    pub fn matching_shares(&self) -> (r: Option<Vec<Balance>>)
        ensures
            r is Some <==> sharing_fits(self.matching_fund as nat, self@.grants),
            r matches Some(shares) ==> {
                &&& shares@.len() == self@.grants.len()
                &&& forall|i: int|
                    0 <= i < shares@.len() ==> #[trigger] shares@[i] == share(
                        self.matching_fund as nat,
                        clr(self@.grants[i]),
                        total_clr(self@.grants),
                    )
                &&& sum_balances(shares@) <= self.matching_fund
            },
    {
        let ghost gs = self@.grants;
        let n = self.grants.len();
        let mut clrs: Vec<Balance> = Vec::new();
        let mut total: Balance = 0;
        let mut i: usize = 0;
        while i < n
            invariant
                n == self.grants@.len(),
                gs == self@.grants,
                gs.len() == n,
                i <= n,
                clrs@.len() == i,
                forall|k: int| 0 <= k < i ==> #[trigger] clrs@[k] == clr(gs[k]),
                total == total_clr(gs.take(i as int)),
            decreases n - i,
        {
            let grant = &self.grants[i];
            proof {
                lemma_total_clr_step(gs, i as int);
            }
            if grant.is_canceled {
                clrs.push(0);
            } else {
                let s = contributions_sqrt_sum(&grant.contributions);
                let weight = match s.checked_mul(s) {
                    Some(w) => w,
                    None => {
                        return None;
                    },
                };
                total = match total.checked_add(weight) {
                    Some(t) => t,
                    None => {
                        proof {
                            lemma_total_clr_prefix(gs, i + 1);
                        }
                        return None;
                    },
                };
                clrs.push(weight);
            }
            i = i + 1;
        }
        assert(gs.take(n as int) =~= gs);
        proof {
            lemma_clr_le_total(gs);
        }
        let pool = self.matching_fund;
        let mut shares: Vec<Balance> = Vec::new();
        let mut j: usize = 0;
        while j < n
            invariant
                n == self.grants@.len(),
                gs == self@.grants,
                gs.len() == n,
                pool == self.matching_fund,
                j <= n,
                clrs@.len() == n,
                forall|k: int| 0 <= k < n ==> #[trigger] clrs@[k] == clr(gs[k]),
                total == total_clr(gs),
                shares@.len() == j,
                forall|k: int|
                    0 <= k < j ==> #[trigger] shares@[k] == share(pool as nat, clr(gs[k]), total as nat),
                forall|k: int|
                    0 <= k < j && !gs[k].is_canceled ==> pool * #[trigger] clr(gs[k]) <= u128::MAX,
                (exists|k: int| 0 <= k < j && !gs[k].is_canceled) ==> total > 0,
            decreases n - j,
        {
            if self.grants[j].is_canceled {
                shares.push(0);
            } else {
                let product = match pool.checked_mul(clrs[j]) {
                    Some(p) => p,
                    None => {
                        return None;
                    },
                };
                if total == 0 {
                    return None;
                }
                shares.push(product / total);
            }
            j = j + 1;
        }
        proof {
            assert(sharing_fits(pool as nat, gs));
            lemma_shares_within_pool(pool as nat, gs, shares@);
        }
        Some(shares)
    }
}

} // verus!
