//! Rebalancing: validating a target allocation, turning it into target
//! amounts, and matching deficits to surpluses one swap at a time.
use vstd::prelude::*;
use crate::arith::{fits_i128, mul_div, mul_div_spec};
use crate::errors::VaultError;
use crate::ids::AccountId;
use crate::types::{RebalancePlan, RebalanceStep, FULL_ALLOCATION};

verus! {

/// Sum of a sequence of amounts.
pub open spec fn seq_sum(s: Seq<i128>) -> int
    decreases s.len(),
{
    if s.len() == 0 {
        0
    } else {
        seq_sum(s.drop_last()) + s.last()
    }
}

/// A well-formed allocation for `n` assets: one percentage per asset,
/// summing to exactly 100% or to 0 ("no target set").
pub open spec fn allocation_ok(alloc: Seq<i128>, n: int) -> bool {
    &&& alloc.len() == n
    &&& (seq_sum(alloc) == 0 || seq_sum(alloc) == FULL_ALLOCATION)
}

/// 2^128: the weight of one carry out of a 128-bit sum.
pub open spec fn carry_weight() -> int {
    0x1_0000_0000_0000_0000_0000_0000_0000_0000int
}

/// Adds `x` to the running sum `acc + carry * 2^128` without overflow,
/// moving what does not fit in `acc` into the carry.
fn add_with_carry(acc: i128, carry: i128, x: i128) -> (r: (i128, i128))
    requires
        i128::MIN < carry < i128::MAX,
    ensures
        r.0 + r.1 * carry_weight() == acc + carry * carry_weight() + x,
        carry - 1 <= r.1 <= carry + 1,
{
    match acc.checked_add(x) {
        Some(v) => (v, carry),
        None => {
            if x > 0 {
                assert((acc + i128::MIN) + (x + i128::MIN) + (carry + 1) * carry_weight()
                    == acc + carry * carry_weight() + x) by (nonlinear_arith);
                ((acc + i128::MIN) + (x + i128::MIN), carry + 1)
            } else {
                assert((acc - i128::MIN) + (x - i128::MIN) + (carry - 1) * carry_weight()
                    == acc + carry * carry_weight() + x) by (nonlinear_arith);
                ((acc - i128::MIN) + (x - i128::MIN), carry - 1)
            }
        },
    }
}

/// Checks a target allocation against the number of assets. Succeeds exactly
/// when there is one entry per asset and the entries sum to 1,000,000 (100%)
/// or to 0; fails with `InvalidConfiguration` otherwise. The sum is taken
/// exactly, whatever the size of the entries.
pub fn validate_allocation(alloc: &Vec<i128>, n_assets: usize) -> (r: Result<(), VaultError>)
    ensures
        r is Ok <==> allocation_ok(alloc@, n_assets as int),
        r is Err ==> r == Err::<(), VaultError>(VaultError::InvalidConfiguration),
        r is Err <==> alloc.len() != n_assets || (seq_sum(alloc@) != 0 && seq_sum(alloc@) != FULL_ALLOCATION),
{
    if alloc.len() != n_assets {
        return Err(VaultError::InvalidConfiguration);
    }
    let mut acc: i128 = 0;
    let mut carry: i128 = 0;
    let mut i: usize = 0;
    assert(alloc@.subrange(0, 0) =~= Seq::<i128>::empty());
    while i < alloc.len()
        invariant
            i <= alloc.len(),
            acc + carry * carry_weight() == seq_sum(alloc@.subrange(0, i as int)),
            -(i as int) <= carry <= i,
        decreases alloc.len() - i,
    {
        assert(alloc@.subrange(0, i + 1).drop_last() =~= alloc@.subrange(0, i as int));
        let (a, c) = add_with_carry(acc, carry, alloc[i]);
        acc = a;
        carry = c;
        i = i + 1;
    }
    assert(alloc@.subrange(0, alloc.len() as int) =~= alloc@);
    proof {
        if carry >= 1 {
            assert(carry * carry_weight() >= carry_weight()) by (nonlinear_arith)
                requires
                    carry >= 1,
            ;
        } else if carry <= -1 {
            assert(carry * carry_weight() <= -carry_weight()) by (nonlinear_arith)
                requires
                    carry <= -1,
            ;
        }
    }
    if carry != 0 || (acc != FULL_ALLOCATION && acc != 0) {
        return Err(VaultError::InvalidConfiguration);
    }
    Ok(())
}

/// Target amount of each asset: `total_value * percentage / 1,000,000`.
pub open spec fn target_amount_spec(total_value: int, pct: int) -> Option<int> {
    mul_div_spec(total_value, pct, FULL_ALLOCATION as int)
}

/// Target amounts for `total_value` under an allocation. Fails with
/// `InvalidAmount` when a product overflows.
pub fn target_amounts(alloc: &Vec<i128>, total_value: i128) -> (r: Result<Vec<i128>, VaultError>)
    ensures
        r matches Ok(t) ==> t.len() == alloc.len() && forall|k: int| 0 <= k < alloc.len()
            ==> target_amount_spec(total_value as int, alloc@[k] as int) == Some(t@[k] as int),
        r is Err <==> exists|k: int| 0 <= k < alloc.len() && target_amount_spec(total_value as int, alloc@[k] as int) is None,
        r is Err ==> r == Err::<Vec<i128>, VaultError>(VaultError::InvalidAmount),
{
    let mut out: Vec<i128> = Vec::new();
    let mut i: usize = 0;
    while i < alloc.len()
        invariant
            i <= alloc.len(),
            out.len() == i,
            forall|k: int| 0 <= k < i ==> target_amount_spec(total_value as int, alloc@[k] as int) == Some(out@[k] as int),
        decreases alloc.len() - i,
    {
        match mul_div(total_value, alloc[i], FULL_ALLOCATION) {
            Some(t) => out.push(t),
            None => return Err(VaultError::InvalidAmount),
        }
        i = i + 1;
    }
    Ok(out)
}

/// Share of an expected output accepted as the minimum, in percent.
pub const SLIPPAGE_KEEP_PERCENT: i128 = 95;

/// Dust threshold of the executor that prices each leg by the pool's reserves.
pub const PRICED_DUST: i128 = 100;

/// Dust threshold of the executor and planner that estimate legs 1:1.
pub const ESTIMATED_DUST: i128 = 1000;

/// Swap cap per invocation of the budget-constrained executor.
pub const BUDGET_MAX_SWAPS: usize = 3;

/// `x * 95 / 100` rounded down: the least output accepted under 5% slippage.
pub open spec fn slippage_floor_spec(x: int) -> int {
    (x * 95) / 100
}

/// Least output accepted under 5% slippage, without overflow.
pub fn slippage_floor(x: i128) -> (r: i128)
    requires
        x >= 0,
    ensures
        r == slippage_floor_spec(x as int),
        0 <= r <= x,
{
    let q = x / 100;
    let m = x % 100;
    assert(x == 100 * q + m && 0 <= m < 100);
    assert((x * 95) / 100 == 95 * q + (m * 95) / 100) by (nonlinear_arith)
        requires
            x == 100 * q + m,
            0 <= m < 100,
    ;
    assert(95 * q + (m * 95) / 100 <= x) by (nonlinear_arith)
        requires
            x == 100 * q + m,
            0 <= m < 100,
            q >= 0,
    ;
    q * SLIPPAGE_KEEP_PERCENT + (m * SLIPPAGE_KEEP_PERCENT) / 100
}

/// How one rebalancing pass chooses and sizes its swaps.
#[derive(Clone, Copy, Debug, PartialEq, Eq, Structural)]
pub struct RebalanceMode {
    /// A deficit must reach this to be worth a swap.
    pub dust: i128,
    /// A surplus must exceed this to be sold from.
    pub source_margin: i128,
    /// No new swap is matched once this many have succeeded.
    pub max_swaps: usize,
    /// Size legs 1:1 (input = min(deficit, excess)) and use only pools
    /// registered for either asset, rather than pricing each leg by the
    /// reserves of a discovered pool.
    pub estimate_one_to_one: bool,
    /// On a failed swap, move on to the next source (`true`) or give up the
    /// whole pass with the swap's error (`false`).
    pub skip_failed_swaps: bool,
}

impl RebalanceMode {
    /// Thresholds within the range the arithmetic is proved for.
    pub open spec fn wf(&self) -> bool {
        1 <= self.dust <= ESTIMATED_DUST && 0 <= self.source_margin <= ESTIMATED_DUST
    }

    /// The unconstrained executor: dust of 100, any surplus may be sold, no
    /// swap cap, legs priced by the pool's reserves, and a failed swap fails
    /// the pass.
    pub fn priced() -> (r: RebalanceMode)
        ensures
            r.wf(),
            r == (RebalanceMode { dust: 100, source_margin: 0, max_swaps: usize::MAX, estimate_one_to_one: false, skip_failed_swaps: false }),
    {
        RebalanceMode { dust: PRICED_DUST, source_margin: 0, max_swaps: usize::MAX, estimate_one_to_one: false, skip_failed_swaps: false }
    }

    /// The budget-constrained executor: dust of 1,000 on both sides, at most
    /// three swaps, registered pools and 1:1 estimates; a failed swap is skipped.
    pub fn budgeted() -> (r: RebalanceMode)
        ensures
            r.wf(),
            r == (RebalanceMode { dust: 1000, source_margin: 1000, max_swaps: 3, estimate_one_to_one: true, skip_failed_swaps: true }),
    {
        RebalanceMode {
            dust: ESTIMATED_DUST,
            source_margin: ESTIMATED_DUST,
            max_swaps: BUDGET_MAX_SWAPS,
            estimate_one_to_one: true,
            skip_failed_swaps: true,
        }
    }

    /// The planner's mode.
    pub open spec fn planning_spec() -> RebalanceMode {
        RebalanceMode { dust: 1000, source_margin: 1000, max_swaps: usize::MAX, estimate_one_to_one: true, skip_failed_swaps: false }
    }

    /// The planner: as the budget-constrained executor, without a swap cap
    /// (it executes no swap).
    pub fn planning() -> (r: RebalanceMode)
        ensures
            r.wf(),
            r == (RebalanceMode { dust: 1000, source_margin: 1000, max_swaps: usize::MAX, estimate_one_to_one: true, skip_failed_swaps: false }),
    {
        RebalanceMode {
            dust: ESTIMATED_DUST,
            source_margin: ESTIMATED_DUST,
            max_swaps: usize::MAX,
            estimate_one_to_one: true,
            skip_failed_swaps: false,
        }
    }
}

/// The smaller of two integers.
pub open spec fn min_int(a: int, b: int) -> int {
    if a < b {
        a
    } else {
        b
    }
}

/// Input of a 1:1-estimated leg from `j` to `i`: the deficit of `i`, capped
/// at the excess of `j`.
pub open spec fn estimate_spec(b: Seq<i128>, t: Seq<i128>, i: int, j: int) -> int {
    min_int(t[i] - b[i], b[j] - t[j])
}

/// Whether selling asset `j` to buy asset `i` is a leg to try: `i` falls
/// short of its target by at least the dust, `j` exceeds its own by more
/// than the margin, and, for 1:1 estimates, a pool is registered for either
/// asset and the estimate reaches the dust.
pub open spec fn is_leg(b: Seq<i128>, t: Seq<i128>, pooled: Seq<bool>, mode: RebalanceMode, i: int, j: int) -> bool {
    &&& i != j
    &&& t[i] - b[i] >= mode.dust
    &&& b[j] - mode.source_margin > t[j]
    &&& mode.estimate_one_to_one ==> (pooled[j] || pooled[i]) && estimate_spec(b, t, i, j) >= mode.dust
}

/// The first leg at or after `(i, j)`: deficits `i` in order and, for each,
/// candidate sources `j` in order (from `j` for the first, from 0 after).
pub open spec fn first_leg(b: Seq<i128>, t: Seq<i128>, pooled: Seq<bool>, mode: RebalanceMode, i: int, j: int) -> Option<(int, int)>
    decreases b.len() - i, b.len() - j,
{
    if i < 0 || j < 0 || i >= b.len() {
        None
    } else if j >= b.len() {
        first_leg(b, t, pooled, mode, i + 1, 0)
    } else if is_leg(b, t, pooled, mode, i, j) {
        Some((i, j))
    } else {
        first_leg(b, t, pooled, mode, i, j + 1)
    }
}

/// The swaps a planner records from deficit `i` on, each as
/// `(to, from, amount in, minimum out)`, projecting the minimum output as
/// received; `None` when an estimate or a projected balance would overflow. (A leg found
/// from `i` always lies at or after `i` and within range; the range test only
/// keeps the definition total.)
pub open spec fn plan_spec(b: Seq<i128>, t: Seq<i128>, pooled: Seq<bool>, mode: RebalanceMode, i: int) -> Option<Seq<(int, int, int, int)>>
    decreases b.len() - i,
{
    match first_leg(b, t, pooled, mode, i, 0) {
        None => Some(Seq::empty()),
        Some((li, lj)) => {
            if li < i || li >= b.len() || lj < 0 || lj >= b.len() {
                Some(Seq::empty())
            } else {
                let amount = estimate_spec(b, t, li, lj);
                let min_out = slippage_floor_spec(amount);
                if !fits_i128(amount) || !fits_i128(b[li] + min_out) {
                    None
                } else {
                    let b2 = b.update(lj, (b[lj] - amount) as i128).update(li, (b[li] + min_out) as i128);
                    match plan_spec(b2, t, pooled, mode, li + 1) {
                        None => None,
                        Some(rest) => Some(seq![(li, lj, amount, min_out)] + rest),
                    }
                }
            }
        },
    }
}

/// Whether every target of an allocation can be computed without overflow.
pub open spec fn targets_computable(alloc: Seq<i128>, total_value: int) -> bool {
    forall|k: int| 0 <= k < alloc.len() ==> #[trigger] target_amount_spec(total_value, alloc[k] as int) is Some
}

/// Whether every target of an allocation can be computed and is not negative.
pub open spec fn targets_fit(alloc: Seq<i128>, total_value: int) -> bool {
    forall|k: int|
        0 <= k < alloc.len() ==> #[trigger] target_amount_spec(total_value, alloc[k] as int) is Some
            && target_amount_spec(total_value, alloc[k] as int)->Some_0 >= 0
}

/// Target amounts of an allocation (zero where the product overflows).
pub open spec fn target_seq(alloc: Seq<i128>, total_value: int) -> Seq<i128> {
    alloc.map_values(
        |pct: i128|
            match target_amount_spec(total_value, pct as int) {
                Some(v) => v as i128,
                None => 0i128,
            },
    )
}

/// A pool list cut or padded (with "no pool") to one entry per asset.
pub open spec fn aligned_pools(pools: Seq<Option<AccountId>>, n: int) -> Seq<Option<AccountId>> {
    Seq::new(n as nat, |k: int| if k < pools.len() { pools[k] } else { None })
}

/// Which configured assets have a registered pool.
pub open spec fn pooled_of(pools: Seq<Option<AccountId>>) -> Seq<bool> {
    pools.map_values(|p: Option<AccountId>| p is Some)
}

/// One pass of matching deficits to surpluses: the projected balances, the
/// targets, the registered pools, and a cursor `(deficit, source)`.
pub struct Rebalancer {
    pub balances: Vec<i128>,
    pub targets: Vec<i128>,
    pub pools: Vec<Option<AccountId>>,
    pub mode: RebalanceMode,
    pub deficit: usize,
    pub source: usize,
    pub swaps: usize,
}

impl Rebalancer {
    /// Balances, targets and pools aligned, cursor in range, and no more swaps
    /// counted than deficits passed.
    pub open spec fn wf(&self) -> bool {
        &&& self.mode.wf()
        &&& self.balances.len() == self.targets.len()
        &&& self.pools.len() == self.balances.len()
        &&& self.deficit <= self.balances.len()
        &&& self.source <= self.balances.len()
        &&& self.swaps <= self.deficit
    }

    /// Which assets have a registered pool.
    pub open spec fn pooled(&self) -> Seq<bool> {
        pooled_of(self.pools@)
    }

    /// The leg the cursor rests on, if it rests on one.
    pub open spec fn at_leg(&self) -> bool {
        &&& self.deficit < self.balances.len()
        &&& self.source < self.balances.len()
        &&& is_leg(self.balances@, self.targets@, self.pooled(), self.mode, self.deficit as int, self.source as int)
    }

    /// Starts a pass over `balances` toward `alloc` of `total_value`. Fails
    /// with `InvalidConfiguration` for a malformed allocation (see
    /// `validate_allocation`), and with
    /// `InvalidAmount` when a target overflows. Negative values, balances and
    /// targets are accepted: an asset above its target is a source, whatever
    /// the signs.
    pub fn new(
        balances: Vec<i128>,
        alloc: &Vec<i128>,
        total_value: i128,
        pools: Vec<Option<AccountId>>,
        mode: RebalanceMode,
    ) -> (r: Result<Rebalancer, VaultError>)
        requires
            mode.wf(),
        ensures
            r matches Ok(rb) ==> {
                &&& rb.wf()
                &&& allocation_ok(alloc@, balances.len() as int)
                &&& rb.balances@ == balances@
                &&& rb.pools@ == aligned_pools(pools@, balances.len() as int)
                &&& rb.mode == mode
                &&& rb.deficit == 0 && rb.source == 0 && rb.swaps == 0
                &&& rb.targets@ == target_seq(alloc@, total_value as int)
                &&& forall|k: int| 0 <= k < alloc.len()
                    ==> target_amount_spec(total_value as int, alloc@[k] as int) == Some(rb.targets@[k] as int)
            },
            !allocation_ok(alloc@, balances.len() as int) ==> r
                == Err::<Rebalancer, VaultError>(VaultError::InvalidConfiguration),
            allocation_ok(alloc@, balances.len() as int) ==> (r is Ok
                <==> targets_computable(alloc@, total_value as int)),
            r is Err && allocation_ok(alloc@, balances.len() as int) ==> r
                == Err::<Rebalancer, VaultError>(VaultError::InvalidAmount),
    {
        match validate_allocation(alloc, balances.len()) {
            Err(e) => return Err(e),
            Ok(()) => {},
        }
        let n = balances.len();
        let ghost given = pools@;
        let mut pools = pools;
        pools.truncate(n);
        while pools.len() < n
            invariant
                pools.len() <= n,
                given.len() < n ==> pools.len() >= given.len(),
                given.len() >= n ==> pools.len() == n,
                forall|k: int| 0 <= k < pools.len() ==> pools@[k] == aligned_pools(given, n as int)[k],
            decreases n - pools.len(),
        {
            pools.push(None);
        }
        assert(pools@ =~= aligned_pools(given, n as int));
        let targets = match target_amounts(alloc, total_value) {
            Err(e) => return Err(e),
            Ok(t) => t,
        };
        assert(targets@ =~= target_seq(alloc@, total_value as int));
        Ok(Rebalancer { balances, targets, pools, mode, deficit: 0, source: 0, swaps: 0 })
    }

    /// Whether selling asset `j` to buy asset `i` is a leg (see `is_leg`).
    fn leg_at(&self, i: usize, j: usize) -> (r: bool)
        requires
            self.wf(),
            i < self.balances.len(),
            j < self.balances.len(),
        ensures
            r == is_leg(self.balances@, self.targets@, self.pooled(), self.mode, i as int, j as int),
    {
        if i == j {
            return false;
        }
        // Each difference is compared as a sum on the other side, which
        // cannot overflow where the comparison matters.
        let wants = match self.balances[i].checked_add(self.mode.dust) {
            Some(x) => self.targets[i] >= x,
            None => false,
        };
        if !wants {
            return false;
        }
        let offers = match self.targets[j].checked_add(self.mode.source_margin) {
            Some(x) => self.balances[j] > x,
            None => false,
        };
        if !offers {
            return false;
        }
        if self.mode.estimate_one_to_one {
            if self.pools[j].is_none() && self.pools[i].is_none() {
                return false;
            }
            let excess_reaches_dust = match self.targets[j].checked_add(self.mode.dust) {
                Some(x) => self.balances[j] >= x,
                None => false,
            };
            if !excess_reaches_dust {
                return false;
            }
        }
        true
    }

    /// Moves the cursor to the next leg at or after it and returns it as
    /// `(deficit, source)`; `None` once the swap cap is reached or no leg is
    /// left, with the cursor past the last asset.
    pub fn next_leg(&mut self) -> (r: Option<(usize, usize)>)
        requires
            old(self).wf(),
        ensures
            final(self).wf(),
            final(self).balances == old(self).balances,
            final(self).targets == old(self).targets,
            final(self).pools == old(self).pools,
            final(self).mode == old(self).mode,
            final(self).swaps == old(self).swaps,
            old(self).swaps >= old(self).mode.max_swaps ==> r is None,
            old(self).swaps < old(self).mode.max_swaps ==> match r {
                Some((i, j)) => first_leg(old(self).balances@, old(self).targets@, old(self).pooled(), old(self).mode,
                    old(self).deficit as int, old(self).source as int) == Some((i as int, j as int)),
                None => first_leg(old(self).balances@, old(self).targets@, old(self).pooled(), old(self).mode,
                    old(self).deficit as int, old(self).source as int) is None,
            },
            r matches Some((i, j)) ==> final(self).deficit == i && final(self).source == j && final(self).at_leg(),
            r is None ==> final(self).deficit == final(self).balances.len() && final(self).source == 0,
    {
        let n = self.balances.len();
        if self.swaps >= self.mode.max_swaps {
            self.deficit = n;
            self.source = 0;
            return None;
        }
        let ghost b = self.balances@;
        let ghost t = self.targets@;
        let ghost pooled = self.pooled();
        let ghost goal = first_leg(b, t, pooled, self.mode, self.deficit as int, self.source as int);
        let mut i: usize = self.deficit;
        let mut j: usize = self.source;
        while i < n
            invariant
                *self == *old(self),
                self.swaps < self.mode.max_swaps,
                goal == first_leg(b, t, pooled, self.mode, old(self).deficit as int, old(self).source as int),
                self.wf(),
                n == self.balances.len(),
                b == self.balances@,
                t == self.targets@,
                pooled == self.pooled(),
                self.swaps <= i <= n,
                j <= n,
                first_leg(b, t, pooled, self.mode, i as int, j as int) == goal,
            decreases n - i,
        {
            while j < n
                invariant
                    *self == *old(self),
                    self.swaps < self.mode.max_swaps,
                    goal == first_leg(b, t, pooled, self.mode, old(self).deficit as int, old(self).source as int),
                    self.wf(),
                    n == self.balances.len(),
                    b == self.balances@,
                    t == self.targets@,
                    pooled == self.pooled(),
                    self.swaps <= i < n,
                    j <= n,
                    first_leg(b, t, pooled, self.mode, i as int, j as int) == goal,
                decreases n - j,
            {
                if self.leg_at(i, j) {
                    self.deficit = i;
                    self.source = j;
                    return Some((i, j));
                }
                j = j + 1;
            }
            i = i + 1;
            j = 0;
        }
        self.deficit = n;
        self.source = 0;
        None
    }

    /// Passes over the source under the cursor, which did not work out.
    pub fn skip(&mut self)
        requires
            old(self).wf(),
            old(self).deficit < old(self).balances.len(),
            old(self).source < old(self).balances.len(),
        ensures
            final(self).wf(),
            *final(self) == (Rebalancer { source: (old(self).source + 1) as usize, ..*old(self) }),
    {
        self.source = self.source + 1;
    }

    /// Settles the sizing of the leg under the cursor. A sized leg comes back
    /// as it is; a leg that could not be priced (no pool for it, reserves that
    /// cannot cover it, an overflow) or came out below the dust is skipped,
    /// moving on to the next source, in every mode.
    pub fn settle_pricing(&mut self, priced: Result<Option<(i128, i128)>, VaultError>) -> (r: Option<(i128, i128)>)
        requires
            old(self).wf(),
            old(self).deficit < old(self).balances.len(),
            old(self).source < old(self).balances.len(),
        ensures
            final(self).wf(),
            priced matches Ok(Some(p)) ==> r == Some(p) && *final(self) == *old(self),
            !(priced matches Ok(Some(_))) ==> r is None && *final(self) == (Rebalancer {
                source: (old(self).source + 1) as usize,
                ..*old(self)
            }),
    {
        match priced {
            Ok(Some(p)) => Some(p),
            _ => {
                self.skip();
                None
            },
        }
    }

    /// Handles a failed swap of the leg under the cursor by the mode's
    /// policy: skips to the next source when the mode skips failures, else
    /// gives up the pass with `error`, changing nothing.
    pub fn swap_failed(&mut self, error: VaultError) -> (r: Result<(), VaultError>)
        requires
            old(self).wf(),
            old(self).deficit < old(self).balances.len(),
            old(self).source < old(self).balances.len(),
        ensures
            final(self).wf(),
            old(self).mode.skip_failed_swaps ==> r is Ok && *final(self) == (Rebalancer {
                source: (old(self).source + 1) as usize,
                ..*old(self)
            }),
            !old(self).mode.skip_failed_swaps ==> r == Err::<(), VaultError>(error) && *final(self) == *old(self),
    {
        if self.mode.skip_failed_swaps {
            self.skip();
            Ok(())
        } else {
            Err(error)
        }
    }

    /// Records that the leg under the cursor swapped `amount_in` of the
    /// source for `amount_out` of the deficit asset, and moves on to the next
    /// deficit. Fails with `InvalidAmount`, changing nothing, for a negative
    /// amount or an overflowing balance.
    pub fn record_swap(&mut self, amount_in: i128, amount_out: i128) -> (r: Result<(), VaultError>)
        requires
            old(self).wf(),
            old(self).deficit < old(self).balances.len(),
            old(self).source < old(self).balances.len(),
            old(self).deficit != old(self).source,
        ensures
            final(self).wf(),
            ({
                let (i, j) = (old(self).deficit as int, old(self).source as int);
                let b = old(self).balances@;
                r is Ok <==> 0 <= amount_in && amount_out >= 0 && fits_i128(b[j] - amount_in) && fits_i128(
                    b[i] + amount_out,
                )
            }),
            r is Err ==> *final(self) == *old(self) && r == Err::<(), VaultError>(VaultError::InvalidAmount),
            r is Ok ==> {
                let (i, j) = (old(self).deficit as int, old(self).source as int);
                let b = old(self).balances@;
                &&& final(self).balances@ == b.update(j, (b[j] - amount_in) as i128).update(i, (b[i] + amount_out) as i128)
                &&& final(self).targets == old(self).targets
                &&& final(self).pools == old(self).pools
                &&& final(self).mode == old(self).mode
                &&& final(self).deficit == old(self).deficit + 1
                &&& final(self).source == 0
                &&& final(self).swaps == old(self).swaps + 1
            },
    {
        let i = self.deficit;
        let j = self.source;
        if amount_in < 0 || amount_out < 0 {
            return Err(VaultError::InvalidAmount);
        }
        let sold = match self.balances[j].checked_sub(amount_in) {
            Some(v) => v,
            None => return Err(VaultError::InvalidAmount),
        };
        let gained = match self.balances[i].checked_add(amount_out) {
            Some(v) => v,
            None => return Err(VaultError::InvalidAmount),
        };
        self.balances.set(j, sold);
        self.balances.set(i, gained);
        self.deficit = i + 1;
        self.source = 0;
        self.swaps = self.swaps + 1;
        Ok(())
    }

    /// The 1:1 estimate for the leg under the cursor: input
    /// `min(deficit, excess)` and the least output accepted, 95% of it.
    /// Fails with `InvalidAmount` when the estimate does not fit in 128 bits.
    pub fn estimate(&self) -> (r: Result<(i128, i128), VaultError>)
        requires
            self.wf(),
            self.at_leg(),
        ensures
            ({
                let e = estimate_spec(self.balances@, self.targets@, self.deficit as int, self.source as int);
                &&& r is Ok <==> fits_i128(e)
                &&& r matches Ok((a, m)) ==> a == e && m == slippage_floor_spec(e) && 0 < a
                &&& r is Err ==> r == Err::<(i128, i128), VaultError>(VaultError::InvalidAmount)
            }),
    {
        let i = self.deficit;
        let j = self.source;
        let amount = match (self.targets[i].checked_sub(self.balances[i]), self.balances[j].checked_sub(self.targets[j])) {
            (Some(d), Some(e)) => {
                if d < e {
                    d
                } else {
                    e
                }
            },
            (Some(d), None) => d,
            (None, Some(e)) => e,
            (None, None) => return Err(VaultError::InvalidAmount),
        };
        Ok((amount, slippage_floor(amount)))
    }

    /// The registered pool for the leg under the cursor: the source's if it
    /// has one, else the deficit asset's.
    pub fn leg_pool(&self) -> (r: Option<&AccountId>)
        requires
            self.wf(),
            self.deficit < self.balances.len(),
            self.source < self.balances.len(),
        ensures
            self.pools@[self.source as int] matches Some(p) ==> r == Some(&p),
            self.pools@[self.source as int] is None ==> match self.pools@[self.deficit as int] {
                Some(p) => r == Some(&p),
                None => r is None,
            },
    {
        match &self.pools[self.source] {
            Some(p) => Some(p),
            None => match &self.pools[self.deficit] {
                Some(p) => Some(p),
                None => None,
            },
        }
    }
}

/// A leg found from `(i, j)` lies at or after deficit `i`, within range.
proof fn lemma_first_leg_bounds(b: Seq<i128>, t: Seq<i128>, pooled: Seq<bool>, mode: RebalanceMode, i: int, j: int)
    requires
        first_leg(b, t, pooled, mode, i, j) is Some,
    ensures
        ({
            let (li, lj) = first_leg(b, t, pooled, mode, i, j)->Some_0;
            i <= li < b.len() && 0 <= lj < b.len() && is_leg(b, t, pooled, mode, li, lj)
        }),
    decreases b.len() - i, b.len() - j,
{
    if i < 0 || j < 0 || i >= b.len() {
    } else if j >= b.len() {
        lemma_first_leg_bounds(b, t, pooled, mode, i + 1, 0);
    } else if is_leg(b, t, pooled, mode, i, j) {
    } else {
        lemma_first_leg_bounds(b, t, pooled, mode, i, j + 1);
    }
}

/// Setting one entry changes the sum by the difference.
proof fn lemma_sum_update(s: Seq<i128>, k: int, v: i128)
    requires
        0 <= k < s.len(),
    ensures
        seq_sum(s.update(k, v)) == seq_sum(s) - s[k] + v,
    decreases s.len(),
{
    let u = s.update(k, v);
    if k == s.len() - 1 {
        assert(u.drop_last() =~= s.drop_last());
    } else {
        lemma_sum_update(s.drop_last(), k, v);
        assert(u.drop_last() =~= s.drop_last().update(k, v));
    }
}

/// With non-negative entries, one entry is at most the sum.
proof fn lemma_entry_below_sum(s: Seq<i128>, k: int)
    requires
        0 <= k < s.len(),
        forall|m: int| 0 <= m < s.len() ==> s[m] >= 0,
    ensures
        0 <= s[k] <= seq_sum(s),
        seq_sum(s) >= 0,
    decreases s.len(),
{
    let t = s.drop_last();
    assert(seq_sum(s) == seq_sum(t) + s.last());
    assert forall|m: int| 0 <= m < t.len() implies t[m] >= 0 by {
        assert(t[m] == s[m]);
    }
    if s.len() > 1 {
        if k < s.len() - 1 {
            lemma_entry_below_sum(t, k);
            assert(t[k] == s[k]);
        } else {
            lemma_entry_below_sum(t, 0);
        }
    } else {
        assert(t.len() == 0);
        assert(seq_sum(t) == 0);
    }
}

/// A plan over non-negative balances whose sum fits in 128 bits never
/// overflows: each step moves value from one asset to another and credits
/// no more than it debits, so no projected balance exceeds that sum.
pub proof fn lemma_plan_fits(b: Seq<i128>, t: Seq<i128>, pooled: Seq<bool>, mode: RebalanceMode, i: int)
    requires
        mode.wf(),
        t.len() == b.len(),
        forall|m: int| 0 <= m < b.len() ==> b[m] >= 0,
        forall|m: int| 0 <= m < t.len() ==> t[m] >= 0,
        seq_sum(b) <= i128::MAX,
    ensures
        plan_spec(b, t, pooled, mode, i) is Some,
    decreases b.len() - i,
{
    match first_leg(b, t, pooled, mode, i, 0) {
        None => {},
        Some((li, lj)) => {
            lemma_first_leg_bounds(b, t, pooled, mode, i, 0);
            let amount = estimate_spec(b, t, li, lj);
            let min_out = slippage_floor_spec(amount);
            assert(0 < amount <= b[lj] - t[lj]);
            assert(0 <= min_out <= amount) by (nonlinear_arith)
                requires
                    min_out == (amount * 95) / 100,
                    amount > 0,
            ;
            let b1 = b.update(lj, (b[lj] - amount) as i128);
            lemma_sum_update(b, lj, (b[lj] - amount) as i128);
            lemma_entry_below_sum(b1, li);
            assert(b1[li] == b[li]);
            assert(fits_i128(b[li] + min_out));
            let b2 = b1.update(li, (b[li] + min_out) as i128);
            lemma_sum_update(b1, li, (b[li] + min_out) as i128);
            assert forall|m: int| 0 <= m < b2.len() implies b2[m] >= 0 by {
                if m != li && m != lj {
                    assert(b2[m] == b[m]);
                }
            }
            lemma_plan_fits(b2, t, pooled, mode, li + 1);
        },
    }
}

/// The registered pool a leg from `j` to `i` goes through.
pub open spec fn pool_for(pools: Seq<Option<AccountId>>, i: int, j: int) -> Seq<u8> {
    match pools[j] {
        Some(p) => p@,
        None => pools[i]->Some_0@,
    }
}

/// Whether `steps` records the planned swaps `legs` over `assets` and `pools`.
pub open spec fn steps_match(
    steps: Seq<RebalanceStep>,
    legs: Seq<(int, int, int, int)>,
    assets: Seq<AccountId>,
    pools: Seq<Option<AccountId>>,
) -> bool {
    &&& steps.len() == legs.len()
    &&& forall|k: int| 0 <= k < legs.len() ==> {
        let (i, j, amount, min_out) = #[trigger] legs[k];
        &&& steps[k].to_token@ == assets[i]@
        &&& steps[k].from_token@ == assets[j]@
        &&& steps[k].amount_in == amount
        &&& steps[k].min_amount_out == min_out
        &&& steps[k].pool_address@ == pool_for(pools, i, j)
    }
}

/// Computes, without executing anything, the ordered swaps that move
/// `balances` (aligned with `assets`) toward `target_allocation` of
/// `total_value`: for each asset short of its target by at least 1,000, in
/// order, the first other asset above its target by more than 1,000 that has
/// a registered pool (in `pools`, one entry per asset; a missing entry means
/// none and extra entries are ignored) on either side. Each
/// step sells `min(deficit, excess)` and expects at least 95% of it; the
/// projection credits that minimum before planning the next asset. Fails as
/// `Rebalancer::new` does (and with `InvalidConfiguration` when `balances`
/// and `assets` differ in length): `InvalidConfiguration` exactly for a
/// length mismatch of the allocation or a sum other than
/// 0 or 100%, otherwise `InvalidAmount` exactly when a target, an estimate or
/// a projected balance overflows. Negative entries, values and balances are
/// accepted. Non-negative targets and balances whose sum fits in 128 bits
/// never overflow (see `lemma_plan_fits`).
#[verifier::rlimit(60)]
pub fn calculate_rebalance_plan(
    assets: &Vec<AccountId>,
    target_allocation: &Vec<i128>,
    total_value: i128,
    balances: Vec<i128>,
    pools: Vec<Option<AccountId>>,
) -> (r: Result<RebalancePlan, VaultError>)
    ensures
        balances.len() != assets.len() ==> r == Err::<RebalancePlan, VaultError>(VaultError::InvalidConfiguration),
        balances.len() == assets.len() && !allocation_ok(target_allocation@, assets.len() as int) ==> r == Err::<
            RebalancePlan,
            VaultError,
        >(VaultError::InvalidConfiguration),
        r matches Ok(plan) ==> {
            &&& balances.len() == assets.len()
            &&& allocation_ok(target_allocation@, assets.len() as int)
            &&& plan_spec(balances@, target_seq(target_allocation@, total_value as int), pooled_of(aligned_pools(pools@, assets.len() as int)),
                RebalanceMode::planning_spec(), 0) is Some
            &&& steps_match(plan.steps@, plan_spec(balances@, target_seq(target_allocation@, total_value as int),
                pooled_of(aligned_pools(pools@, assets.len() as int)), RebalanceMode::planning_spec(), 0)->Some_0, assets@, aligned_pools(pools@, assets.len() as int))
            &&& plan.total_steps == plan.steps.len() as u32
        },
        balances.len() == assets.len() && allocation_ok(target_allocation@, assets.len() as int) ==> (r is Ok <==> targets_computable(target_allocation@, total_value as int) && plan_spec(
            balances@,
            target_seq(target_allocation@, total_value as int),
            pooled_of(aligned_pools(pools@, assets.len() as int)),
            RebalanceMode::planning_spec(),
            0,
        ) is Some),
        balances.len() == assets.len() && allocation_ok(target_allocation@, assets.len() as int) && total_value >= 0 && (forall|k: int| 0 <= k < balances.len() ==> balances@[k] >= 0)
            && targets_fit(target_allocation@, total_value as int) && seq_sum(balances@) <= i128::MAX ==> r is Ok,
        r is Err && balances.len() == assets.len() && allocation_ok(target_allocation@, assets.len() as int) ==> r == Err::<RebalancePlan, VaultError>(VaultError::InvalidAmount),

{
    if balances.len() != assets.len() {
        return Err(VaultError::InvalidConfiguration);
    }
    let ghost b0 = balances@;
    let ghost given_pools = aligned_pools(pools@, assets.len() as int);
    let mode = RebalanceMode::planning();
    let mut rb = match Rebalancer::new(balances, target_allocation, total_value, pools, mode) {
        Err(e) => return Err(e),
        Ok(rb) => rb,
    };
    let ghost t0 = rb.targets@;
    let ghost pooled = rb.pooled();
    let ghost whole = plan_spec(b0, t0, pooled, mode, 0);
    proof {
        if seq_sum(b0) <= i128::MAX && (forall|k: int| 0 <= k < b0.len() ==> b0[k] >= 0) && targets_fit(
            target_allocation@,
            total_value as int,
        ) {
            assert forall|k: int| 0 <= k < t0.len() implies t0[k] >= 0 by {
                assert(target_amount_spec(total_value as int, target_allocation@[k] as int) == Some(t0[k] as int));
            }
            lemma_plan_fits(b0, t0, pooled, mode, 0);
        }
    }
    let ghost mut done: Seq<(int, int, int, int)> = Seq::empty();
    let mut steps: Vec<RebalanceStep> = Vec::new();
    let n = rb.balances.len();
    loop
        invariant
            rb.wf(),
            rb.mode == mode,
            mode == RebalanceMode::planning_spec(),
            rb.targets@ == t0,
            rb.pools@ == given_pools,
            pooled == rb.pooled(),
            rb.balances.len() == n,
            n == assets.len(),
            rb.source == 0,
            balances.len() == assets.len(),
            allocation_ok(target_allocation@, assets.len() as int),
            b0 == balances@,
            given_pools == aligned_pools(pools@, assets.len() as int),
            t0 == target_seq(target_allocation@, total_value as int),
            targets_computable(target_allocation@, total_value as int),
            pooled == pooled_of(aligned_pools(pools@, assets.len() as int)),
            whole == plan_spec(b0, t0, pooled, mode, 0),
            whole == match plan_spec(rb.balances@, t0, pooled, mode, rb.deficit as int) {
                Some(rest) => Some(done + rest),
                None => None::<Seq<(int, int, int, int)>>,
            },
            steps_match(steps@, done, assets@, given_pools),
        ensures
            whole == Some(done),
            steps_match(steps@, done, assets@, given_pools),
        decreases n - rb.deficit,
    {
        let ghost before = rb;
        match rb.next_leg() {
            None => {
                proof {
                    if before.swaps >= before.mode.max_swaps {
                        assert(before.deficit == n);
                    }
                    assert(plan_spec(before.balances@, t0, pooled, mode, before.deficit as int) == Some(Seq::<(int, int, int, int)>::empty()));
                    assert(done + Seq::<(int, int, int, int)>::empty() =~= done);
                }
                break;
            },
            Some((i, j)) => {
                proof {
                    lemma_first_leg_bounds(before.balances@, t0, pooled, mode, before.deficit as int, 0);
                }
                let (amount, min_out) = match rb.estimate() {
                    Ok(p) => p,
                    Err(e) => {
                        assert(plan_spec(before.balances@, t0, pooled, mode, before.deficit as int) is None);
                        return Err(e);
                    },
                };
                let pool = match rb.leg_pool() {
                    Some(p) => p.duplicate(),
                    None => return Err(VaultError::InvalidConfiguration),
                };
                match rb.record_swap(amount, min_out) {
                    Err(e) => {
                        assert(plan_spec(before.balances@, t0, pooled, mode, before.deficit as int) is None);
                        return Err(e);
                    },
                    Ok(()) => {},
                }
                let step = RebalanceStep {
                    from_token: assets[j].duplicate(),
                    to_token: assets[i].duplicate(),
                    amount_in: amount,
                    min_amount_out: min_out,
                    pool_address: pool,
                };
                steps.push(step);
                proof {
                    let leg = (i as int, j as int, amount as int, min_out as int);
                    let rest = plan_spec(rb.balances@, t0, pooled, mode, rb.deficit as int);
                    if rest is Some {
                        assert(done.push(leg) + rest->Some_0 =~= done + (seq![leg] + rest->Some_0));
                    }
                    assert forall|k: int| 0 <= k < done.push(leg).len() implies {
                        let (a, c, d, e) = #[trigger] done.push(leg)[k];
                        &&& steps@[k].to_token@ == assets@[a]@
                        &&& steps@[k].from_token@ == assets@[c]@
                        &&& steps@[k].amount_in == d
                        &&& steps@[k].min_amount_out == e
                        &&& steps@[k].pool_address@ == pool_for(given_pools, a, c)
                    } by {
                        if k < done.len() {
                            assert(done.push(leg)[k] == done[k]);
                        }
                    }
                    done = done.push(leg);
                }
            },
        }
    }
    let total_steps = steps.len() as u32;
    Ok(RebalancePlan { steps, total_steps })
}

/// Input needed to receive `amount_out` from a constant-product pool with
/// the fee kept: `reserve_in * amount_out * 1000 / ((reserve_out - amount_out) * 997) + 1`;
/// `None` when the output is not positive, the pool cannot provide it, or a
/// step overflows.
pub open spec fn swap_input_spec(amount_out: int, reserve_in: int, reserve_out: int) -> Option<int> {
    let numerator = reserve_in * amount_out * 1000;
    let denominator = (reserve_out - amount_out) * 997;
    if amount_out <= 0 || reserve_in <= 0 || reserve_out <= amount_out || !fits_i128(numerator)
        || !fits_i128(denominator) || !fits_i128(numerator / denominator + 1) {
        None
    } else {
        Some(numerator / denominator + 1)
    }
}

/// Input needed to receive `amount_out` (see `swap_input_spec`).
pub fn swap_input_for_output(amount_out: i128, reserve_in: i128, reserve_out: i128) -> (r: Option<i128>)
    ensures
        crate::arith::opt_int(r) == swap_input_spec(amount_out as int, reserve_in as int, reserve_out as int),
{
    if amount_out <= 0 || reserve_in <= 0 || reserve_out <= amount_out {
        return None;
    }
    let numerator = match reserve_in.checked_mul(amount_out) {
        Some(v) => match v.checked_mul(1000) {
            Some(w) => w,
            None => return None,
        },
        None => return None,
    };
    let denominator = match (reserve_out - amount_out).checked_mul(997) {
        Some(v) => v,
        None => return None,
    };
    assert(numerator > 0 && denominator > 0) by (nonlinear_arith)
        requires
            numerator == reserve_in * amount_out * 1000,
            denominator == (reserve_out - amount_out) * 997,
            reserve_in > 0,
            amount_out > 0,
            reserve_out > amount_out,
    ;
    let q = numerator / denominator;
    q.checked_add(1)
}

/// Sizing of a leg priced by the pool's reserves: the input needed for the
/// whole deficit, capped at the excess; `None` (skip this source) when that
/// falls below the dust; otherwise the input and 95% of its expected output.
pub open spec fn priced_leg_spec(deficit: int, excess: int, dust: int, reserve_in: int, reserve_out: int) -> Result<Option<(int, int)>, VaultError> {
    match swap_input_spec(deficit, reserve_in, reserve_out) {
        None => Err(VaultError::InsufficientLiquidity),
        Some(needed) => {
            let amount = min_int(needed, excess);
            if amount < dust {
                Ok(None)
            } else {
                match crate::pool::swap_output_spec(amount, reserve_in, reserve_out) {
                    None => Err(VaultError::InvalidAmount),
                    Some(expected) => {
                        if expected < 0 {
                            Err(VaultError::InvalidAmount)
                        } else {
                            Ok(Some((amount, slippage_floor_spec(expected))))
                        }
                    },
                }
            }
        },
    }
}

impl Rebalancer {
    /// Sizes the leg under the cursor from the reserves of the pool that
    /// trades it (`reserve_in` of the source, `reserve_out` of the deficit
    /// asset); see `priced_leg_spec`. Fails with `InsufficientLiquidity` when
    /// the pool cannot cover the deficit and with `InvalidAmount` on overflow
    /// (the deficit or the excess included).
    pub fn priced_leg(&self, reserve_in: i128, reserve_out: i128) -> (r: Result<Option<(i128, i128)>, VaultError>)
        requires
            self.wf(),
            self.at_leg(),
        ensures
            ({
                let (i, j) = (self.deficit as int, self.source as int);
                let spec = priced_leg_spec(self.targets@[i] - self.balances@[i], self.balances@[j] - self.targets@[j],
                    self.mode.dust as int, reserve_in as int, reserve_out as int);
                let sized = fits_i128(self.targets@[i] - self.balances@[i]) && fits_i128(self.balances@[j] - self.targets@[j]);
                !sized ==> r == Err::<Option<(i128, i128)>, VaultError>(VaultError::InvalidAmount)
                && sized ==> match (r, spec) {
                    (Ok(None), Ok(None)) => true,
                    (Ok(Some((a, m))), Ok(Some((x, y)))) => a == x && m == y,
                    (Err(e), Err(f)) => e == f,
                    _ => false,
                }
            }),
            r matches Ok(Some((a, m))) ==> 0 < a <= self.balances@[self.source as int] - self.targets@[self.source as int]
                && m >= 0,
    {
        let i = self.deficit;
        let j = self.source;
        let (deficit, excess) = match (self.targets[i].checked_sub(self.balances[i]), self.balances[j].checked_sub(self.targets[j])) {
            (Some(d), Some(e)) => (d, e),
            _ => return Err(VaultError::InvalidAmount),
        };
        let needed = match swap_input_for_output(deficit, reserve_in, reserve_out) {
            Some(v) => v,
            None => return Err(VaultError::InsufficientLiquidity),
        };
        let amount = if needed < excess {
            needed
        } else {
            excess
        };
        if amount < self.mode.dust {
            return Ok(None);
        }
        let expected = match crate::pool::swap_output(amount, reserve_in, reserve_out) {
            Some(v) => v,
            None => return Err(VaultError::InvalidAmount),
        };
        if expected < 0 {
            return Err(VaultError::InvalidAmount);
        }
        Ok(Some((amount, slippage_floor(expected))))
    }
}

/// Sizing of a leg routed through a bridging asset: the input needed for the
/// whole deficit across both pools (`first` trades the source for the bridge,
/// `second` the bridge for the deficit asset, each as `(reserve in, reserve
/// out)`), capped at the excess; `None` (skip this source) below the dust;
/// otherwise the input and 95% of the output expected after both hops.
pub open spec fn priced_two_hop_spec(
    deficit: int,
    excess: int,
    dust: int,
    first: (int, int),
    second: (int, int),
) -> Result<Option<(int, int)>, VaultError> {
    match swap_input_spec(deficit, second.0, second.1) {
        None => Err(VaultError::InsufficientLiquidity),
        Some(middle) => match swap_input_spec(middle, first.0, first.1) {
            None => Err(VaultError::InsufficientLiquidity),
            Some(needed) => {
                let amount = min_int(needed, excess);
                if amount < dust {
                    Ok(None)
                } else {
                    match crate::pool::swap_output_spec(amount, first.0, first.1) {
                        None => Err(VaultError::InvalidAmount),
                        Some(mid) => match crate::pool::swap_output_spec(mid, second.0, second.1) {
                            None => Err(VaultError::InvalidAmount),
                            Some(expected) => {
                                if expected < 0 {
                                    Err(VaultError::InvalidAmount)
                                } else {
                                    Ok(Some((amount, slippage_floor_spec(expected))))
                                }
                            },
                        },
                    }
                }
            },
        },
    }
}

impl Rebalancer {
    /// Sizes the leg under the cursor when it is routed through a bridging
    /// asset, from the reserves of both pools (see `priced_two_hop_spec`).
    /// Fails with `InsufficientLiquidity` when the pools cannot cover the
    /// deficit and with `InvalidAmount` on overflow.
    pub fn priced_two_hop_leg(&self, first: (i128, i128), second: (i128, i128)) -> (r: Result<Option<(i128, i128)>, VaultError>)
        requires
            self.wf(),
            self.at_leg(),
        ensures
            ({
                let (i, j) = (self.deficit as int, self.source as int);
                let spec = priced_two_hop_spec(self.targets@[i] - self.balances@[i], self.balances@[j] - self.targets@[j],
                    self.mode.dust as int, (first.0 as int, first.1 as int), (second.0 as int, second.1 as int));
                let sized = fits_i128(self.targets@[i] - self.balances@[i]) && fits_i128(self.balances@[j] - self.targets@[j]);
                !sized ==> r == Err::<Option<(i128, i128)>, VaultError>(VaultError::InvalidAmount)
                && sized ==> match (r, spec) {
                    (Ok(None), Ok(None)) => true,
                    (Ok(Some((a, m))), Ok(Some((x, y)))) => a == x && m == y,
                    (Err(e), Err(f)) => e == f,
                    _ => false,
                }
            }),
            r matches Ok(Some((a, m))) ==> 0 < a <= self.balances@[self.source as int] - self.targets@[self.source as int]
                && m >= 0,
    {
        let i = self.deficit;
        let j = self.source;
        let (deficit, excess) = match (self.targets[i].checked_sub(self.balances[i]), self.balances[j].checked_sub(self.targets[j])) {
            (Some(d), Some(e)) => (d, e),
            _ => return Err(VaultError::InvalidAmount),
        };
        let middle = match swap_input_for_output(deficit, second.0, second.1) {
            Some(v) => v,
            None => return Err(VaultError::InsufficientLiquidity),
        };
        let needed = match swap_input_for_output(middle, first.0, first.1) {
            Some(v) => v,
            None => return Err(VaultError::InsufficientLiquidity),
        };
        let amount = if needed < excess {
            needed
        } else {
            excess
        };
        if amount < self.mode.dust {
            return Ok(None);
        }
        let mid = match crate::pool::swap_output(amount, first.0, first.1) {
            Some(v) => v,
            None => return Err(VaultError::InvalidAmount),
        };
        let expected = match crate::pool::swap_output(mid, second.0, second.1) {
            Some(v) => v,
            None => return Err(VaultError::InvalidAmount),
        };
        if expected < 0 {
            return Err(VaultError::InvalidAmount);
        }
        Ok(Some((amount, slippage_floor(expected))))
    }
}

/// Checks made before one planned step is executed: a router must be set,
/// the amount must be positive and the vault must hold it.
pub fn check_rebalance_step(
    router: &Option<AccountId>,
    step: &RebalanceStep,
    balance: i128,
) -> (r: Result<(), VaultError>)
    ensures
        router is None ==> r == Err::<(), VaultError>(VaultError::InvalidConfiguration),
        router is Some && balance < step.amount_in ==> r == Err::<(), VaultError>(VaultError::InsufficientBalance),
        router is Some && balance >= step.amount_in && step.amount_in <= 0 ==> r == Err::<(), VaultError>(
            VaultError::InvalidAmount,
        ),
        r is Ok <==> router is Some && balance >= step.amount_in && step.amount_in > 0,
{
    if router.is_none() {
        return Err(VaultError::InvalidConfiguration);
    }
    if balance < step.amount_in {
        return Err(VaultError::InsufficientBalance);
    }
    if step.amount_in <= 0 {
        return Err(VaultError::InvalidAmount);
    }
    Ok(())
}

} // verus!
