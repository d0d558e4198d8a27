use vstd::arithmetic::div_mod::{
    lemma_basic_div, lemma_div_by_self, lemma_div_is_ordered, lemma_div_nonincreasing,
    lemma_div_pos_is_pos,
};
use vstd::prelude::*;

use crate::errors::Error;
use crate::ledger::{
    all_shares_positive, lemma_shares_of_bounds, lemma_sum_shares_push, lemma_sum_take_le,
    lemma_sums_take_succ, lemma_take_positive, revenue_wf, shares_of, sum_shares, AccountId,
    Investment, Revenue,
};

verus! {

/// The fixed parameters and the mutable supply of one video's share sale.
#[derive(Clone, Copy, Debug, PartialEq, Eq, Structural)]
pub struct VideoOffering {
    pub creator: AccountId,
    pub total_shares: i128,
    pub base_price: i128,
    pub start_date: u64,
    pub sale_end_date: u64,
    pub remaining_shares: i128,
    pub price_increment: i128,
}

/// The state the host keeps for one video asset: its offering, its ledger of
/// purchases, and its revenue account (created lazily on the first deposit).
pub struct VideoShareContract {
    pub offering: Option<VideoOffering>,
    pub investments: Vec<Investment>,
    pub revenue: Option<Revenue>,
}

/// Whole hours elapsed since `start` at time `t`, clamped below at zero.
pub open spec fn hours_since(start: u64, t: u64) -> int {
    if t >= start {
        (t - start) / 3600
    } else {
        0
    }
}

/// The step pricing curve: the base price plus one increment for every full
/// hour since the sale started. Non-decreasing, constant within each hour.
pub open spec fn video_price_at(o: VideoOffering, t: u64) -> int {
    o.base_price + o.price_increment * hours_since(o.start_date, t)
}

/// The price at `t` can be represented in the monetary type.
pub open spec fn video_price_fits(o: VideoOffering, t: u64) -> bool {
    video_price_at(o, t) <= i128::MAX
}

/// Validity of an offering record: positive supply and base price, a
/// non-negative increment, supply within bounds, and an ordered sale window.
pub open spec fn video_offering_wf(o: VideoOffering) -> bool {
    &&& o.total_shares > 0
    &&& o.base_price > 0
    &&& o.price_increment >= 0
    &&& 0 <= o.remaining_shares <= o.total_shares
    &&& o.start_date <= o.sale_end_date
}

/// The constructor arguments `create_offering` accepts.
pub open spec fn video_create_params_ok(
    total_shares: i128,
    base_price: i128,
    price_increment: i128,
) -> bool {
    total_shares > 0 && base_price > 0 && price_increment >= 0
}

/// The moment the sale window closes, as created from `now` and a duration
/// in days.
pub open spec fn video_sale_end(now: u64, sale_duration_days: u32) -> int {
    now + sale_duration_days * 86400
}

/// Which error a purchase request is refused with, if any, in the order the
/// checks are made: amount, existence, window, then supply.
pub open spec fn video_buy_outcome(
    s: VideoShareContract,
    now: u64,
    shares: i128,
) -> Option<Error> {
    if shares <= 0 {
        Some(Error::InvalidAmount)
    } else {
        match s.offering {
            None => Some(Error::NotFound),
            Some(o) => if now > o.sale_end_date {
                Some(Error::WindowClosed)
            } else if shares > o.remaining_shares {
                Some(Error::InsufficientSupply)
            } else {
                None
            },
        }
    }
}

/// On an admissible purchase, the unit price and the total cost both fit the
/// monetary type. A machine limit, not a rule of the ledger.
pub open spec fn video_buy_fits(s: VideoShareContract, now: u64, shares: i128) -> bool {
    match s.offering {
        Some(o) => (shares > 0 && now <= o.sale_end_date && shares <= o.remaining_shares) ==> (
        video_price_fits(o, now) && video_price_at(o, now) * shares <= i128::MAX),
        None => true,
    }
}

/// Which error a deposit request is refused with, if any.
pub open spec fn video_deposit_outcome(
    s: VideoShareContract,
    caller: AccountId,
    amount: i128,
) -> Option<Error> {
    if amount <= 0 {
        Some(Error::InvalidAmount)
    } else {
        match s.offering {
            None => Some(Error::NotFound),
            Some(o) => if caller != o.creator {
                Some(Error::Unauthorized)
            } else {
                None
            },
        }
    }
}

/// The revenue already deposited for the asset, zero while no deposit was made.
pub open spec fn deposited_total(s: VideoShareContract) -> int {
    match s.revenue {
        Some(rv) => rv.total_amount as int,
        None => 0,
    }
}

/// The amount a claimant owning `claimant_shares` may claim: the undistributed
/// revenue, scaled by the owned fraction computed by integer division before
/// any scaling, then divided by the six-decimal precision unit. The early
/// division truncates the fraction to zero for every claimant below full
/// ownership; that order is deliberate and kept as the ledger's behaviour.
pub open spec fn claimable_amount(o: VideoOffering, rv: Revenue, claimant_shares: int) -> int {
    ((rv.total_amount - rv.distributed_amount) * (claimant_shares / (o.total_shares as int)))
        / 1000000
}

/// The result a claim request settles on: which error it fails with, or the
/// amount it pays out, in the order the checks are made.
pub open spec fn video_claim_outcome(s: VideoShareContract, caller: AccountId) -> Result<
    int,
    Error,
> {
    match s.offering {
        None => Err(Error::NotFound),
        Some(o) => match s.revenue {
            None => Err(Error::NotFound),
            Some(rv) => {
                let cs = shares_of(s.investments@, caller);
                if cs == 0 {
                    Err(Error::NoShares)
                } else if claimable_amount(o, rv, cs) <= 0 {
                    Err(Error::NothingToClaim)
                } else {
                    Ok(claimable_amount(o, rv, cs))
                }
            },
        },
    }
}

impl VideoShareContract {
    /// The state invariant: a present offering is valid and its ledger
    /// accounts exactly for the shares sold; an absent offering has an empty
    /// ledger; a present revenue record is consistent.
    pub open spec fn wf(self) -> bool {
        &&& match self.offering {
            Some(o) => {
                &&& video_offering_wf(o)
                &&& sum_shares(self.investments@) == o.total_shares - o.remaining_shares
                &&& all_shares_positive(self.investments@)
            },
            None => self.investments@.len() == 0,
        }
        &&& match self.revenue {
            Some(rv) => revenue_wf(rv),
            None => true,
        }
    }

    /// Field-for-field equality of the observable state.
    pub open spec fn same_state(self, other: VideoShareContract) -> bool {
        &&& self.offering == other.offering
        &&& self.investments@ == other.investments@
        &&& self.revenue == other.revenue
    }

    /// Fresh state for an asset id the host has never written: nothing exists.
    pub fn new() -> (s: Self)
        ensures
            s.offering is None,
            s.investments@.len() == 0,
            s.revenue is None,
            s.wf(),
    {
        VideoShareContract { offering: None, investments: Vec::new(), revenue: None }
    }

    /// Opens a sale of `total_shares` shares at `base_price`, rising by
    /// `price_increment` per hour, for `sale_duration_days` days from `now`.
    /// The caller becomes the creator, permanently. An existing offering is
    /// silently overwritten and its ledger reset; a revenue record, if any,
    /// is kept.
    pub fn create_offering(
        &mut self,
        caller: AccountId,
        now: u64,
        total_shares: i128,
        base_price: i128,
        price_increment: i128,
        sale_duration_days: u32,
    ) -> (r: Result<(), Error>)
        requires
            old(self).wf(),
            video_create_params_ok(total_shares, base_price, price_increment) ==> video_sale_end(
                now,
                sale_duration_days,
            ) <= u64::MAX,
        ensures
            final(self).wf(),
            !video_create_params_ok(total_shares, base_price, price_increment) ==> (r == Err::<
                (),
                Error,
            >(Error::InvalidParameter) && final(self).same_state(*old(self))),
            video_create_params_ok(total_shares, base_price, price_increment) ==> (r == Ok::<
                (),
                Error,
            >(()) && final(self).offering == Some(
                (VideoOffering {
                    creator: caller,
                    total_shares,
                    base_price,
                    start_date: now,
                    sale_end_date: (video_sale_end(now, sale_duration_days)) as u64,
                    remaining_shares: total_shares,
                    price_increment,
                }),
            ) && final(self).investments@.len() == 0 && final(self).revenue == old(self).revenue),
    {
        if total_shares <= 0 || base_price <= 0 || price_increment < 0 {
            return Err(Error::InvalidParameter);
        }
        let sale_end_date: u64 = now + sale_duration_days as u64 * 86400;
        self.offering = Some(
            VideoOffering {
                creator: caller,
                total_shares,
                base_price,
                start_date: now,
                sale_end_date,
                remaining_shares: total_shares,
                price_increment,
            },
        );
        self.investments = Vec::new();
        Ok(())
    }

    /// The step curve evaluated against a stored offering at `now`.
    fn calculate_share_price(o: &VideoOffering, now: u64) -> (price: i128)
        requires
            o.base_price > 0,
            o.price_increment >= 0,
            video_price_fits(*o, now),
        ensures
            price == video_price_at(*o, now),
            price >= o.base_price,
    {
        let elapsed: u64 = if now >= o.start_date {
            now - o.start_date
        } else {
            0
        };
        let hours: u64 = elapsed / 3600;
        proof {
            assert(hours as int == hours_since(o.start_date, now));
            assert(o.price_increment * (hours as int) >= 0) by (nonlinear_arith)
                requires
                    o.price_increment >= 0,
                    hours as int >= 0,
            ;
        }
        let step: i128 = o.price_increment * (hours as i128);
        o.base_price + step
    }

    /// Buys `shares_to_buy` shares at the price the curve gives for `now`,
    /// appends the purchase to the ledger, and reduces the remaining supply.
    /// Nothing changes on failure. No price is reserved between calls: two
    /// sequential purchases may observe different prices.
    pub fn buy_shares(&mut self, caller: AccountId, now: u64, shares_to_buy: i128) -> (r: Result<
        (),
        Error,
    >)
        requires
            old(self).wf(),
            video_buy_fits(*old(self), now, shares_to_buy),
        ensures
            final(self).wf(),
            (video_buy_outcome(*old(self), now, shares_to_buy) matches Some(e) ==> r == Err::<
                (),
                Error,
            >(e) && final(self).same_state(*old(self))),
            (video_buy_outcome(*old(self), now, shares_to_buy) is None ==> (r == Ok::<(), Error>(())
                && (match old(self).offering {
                Some(o) => final(self).offering == Some(
                    (VideoOffering { remaining_shares: (o.remaining_shares - shares_to_buy) as i128, ..o }),
                ) && final(self).investments@ == old(self).investments@.push(
                    (Investment {
                        investor: caller,
                        shares: shares_to_buy,
                        amount_paid: (video_price_at(o, now) * shares_to_buy) as i128,
                        timestamp: now,
                    }),
                ) && final(self).revenue == old(self).revenue,
                None => false,
            }))),
    {
        if shares_to_buy <= 0 {
            return Err(Error::InvalidAmount);
        }
        let o = match &self.offering {
            Some(o) => *o,
            None => { return Err(Error::NotFound) },
        };
        if now > o.sale_end_date {
            return Err(Error::WindowClosed);
        }
        if shares_to_buy > o.remaining_shares {
            return Err(Error::InsufficientSupply);
        }
        let price_per_share: i128 = Self::calculate_share_price(&o, now);
        proof {
            assert(price_per_share * shares_to_buy >= 0) by (nonlinear_arith)
                requires
                    price_per_share >= 0,
                    shares_to_buy >= 0,
            ;
        }
        let total_cost: i128 = price_per_share * shares_to_buy;
        let record = Investment {
            investor: caller,
            shares: shares_to_buy,
            amount_paid: total_cost,
            timestamp: now,
        };
        proof {
            lemma_sum_shares_push(self.investments@, record);
        }
        self.investments.push(record);
        self.offering = Some(
            VideoOffering { remaining_shares: o.remaining_shares - shares_to_buy, ..o },
        );
        Ok(())
    }

    /// Records `amount` more revenue for the asset. Only the creator may
    /// deposit; the record is created zeroed on the first deposit. This only
    /// records the obligation — settlement is the host's business.
    pub fn deposit_revenue(&mut self, caller: AccountId, now: u64, amount: i128) -> (r: Result<
        (),
        Error,
    >)
        requires
            old(self).wf(),
            video_deposit_outcome(*old(self), caller, amount) is None ==> deposited_total(
                *old(self),
            ) + amount <= i128::MAX,
        ensures
            final(self).wf(),
            (video_deposit_outcome(*old(self), caller, amount) matches Some(e) ==> r == Err::<
                (),
                Error,
            >(e) && final(self).same_state(*old(self))),
            (video_deposit_outcome(*old(self), caller, amount) is None ==> (r == Ok::<(), Error>(())
                && final(self).offering == old(self).offering && final(self).investments@ == old(
                self,
            ).investments@ && (match old(self).revenue {
                Some(rv) => final(self).revenue == Some(
                    (Revenue {
                        total_amount: (rv.total_amount + amount) as i128,
                        distributed_amount: rv.distributed_amount,
                        last_distribution: rv.last_distribution,
                    }),
                ),
                None => final(self).revenue == Some(
                    (Revenue { total_amount: amount, distributed_amount: 0, last_distribution: now }),
                ),
            }))),
    {
        if amount <= 0 {
            return Err(Error::InvalidAmount);
        }
        let o = match &self.offering {
            Some(o) => *o,
            None => { return Err(Error::NotFound) },
        };
        if caller != o.creator {
            return Err(Error::Unauthorized);
        }
        let rv = match &self.revenue {
            Some(rv) => *rv,
            None => Revenue { total_amount: 0, distributed_amount: 0, last_distribution: now },
        };
        self.revenue = Some(
            Revenue {
                total_amount: rv.total_amount + amount,
                distributed_amount: rv.distributed_amount,
                last_distribution: rv.last_distribution,
            },
        );
        Ok(())
    }

    /// Pays the caller their pro-rata part of the undistributed revenue:
    /// scans the ledger for the caller's shares, computes the claimable
    /// amount with the division order `claimable_amount` fixes, and moves it
    /// from undistributed to distributed. Nothing changes on failure.
    pub fn claim_revenue(&mut self, caller: AccountId, now: u64) -> (r: Result<i128, Error>)
        requires
            old(self).wf(),
        ensures
            final(self).wf(),
            (video_claim_outcome(*old(self), caller) matches Err(e) ==> r == Err::<i128, Error>(e)
                && final(self).same_state(*old(self))),
            (video_claim_outcome(*old(self), caller) matches Ok(c) ==> (r == Ok::<i128, Error>(
                (c) as i128,
            ) && final(self).offering == old(self).offering && final(self).investments@ == old(
                self,
            ).investments@ && (match (old(self).revenue, final(self).revenue) {
                (Some(rv0), Some(rv1)) => rv1.total_amount == rv0.total_amount
                    && rv1.distributed_amount == rv0.distributed_amount + c
                    && rv1.last_distribution == now,
                _ => false,
            }))),
    {
        let o = match &self.offering {
            Some(o) => *o,
            None => { return Err(Error::NotFound) },
        };
        let rv = match &self.revenue {
            Some(rv) => *rv,
            None => { return Err(Error::NotFound) },
        };
        let ghost all = self.investments@;
        let mut claimant_shares: i128 = 0;
        let mut i: usize = 0;
        let n: usize = self.investments.len();
        while i < n
            invariant
                self.same_state(*old(self)),
                self.wf(),
                self.offering == Some(o),
                all == self.investments@,
                n == all.len(),
                0 <= i <= n,
                claimant_shares == shares_of(all.take(i as int), caller),
                0 <= claimant_shares <= o.total_shares,
            decreases n - i,
        {
            let inv = self.investments[i];
            proof {
                lemma_sums_take_succ(all, caller, i as int);
                lemma_take_positive(all, i as int + 1);
                lemma_shares_of_bounds(all.take(i as int + 1), caller);
                lemma_sum_take_le(all, i as int + 1);
            }
            if inv.investor == caller {
                claimant_shares = claimant_shares + inv.shares;
            }
            i = i + 1;
        }
        proof {
            assert(all.take(n as int) =~= all);
        }
        if claimant_shares == 0 {
            return Err(Error::NoShares);
        }
        let unclaimed: i128 = rv.total_amount - rv.distributed_amount;
        proof {
            lemma_div_pos_is_pos(claimant_shares as int, o.total_shares as int);
            lemma_div_is_ordered(claimant_shares as int, o.total_shares as int, o.total_shares as int);
            lemma_div_by_self(o.total_shares as int);
        }
        let share_ratio: i128 = ((claimant_shares as u128) / (o.total_shares as u128)) as i128;
        proof {
            assert(share_ratio == 0 || share_ratio == 1);
            vstd::arithmetic::mul::lemma_mul_basics(unclaimed as int);
        }
        let claimable: i128 = (((unclaimed as u128) * (share_ratio as u128)) / 1000000u128) as i128;
        proof {
            if share_ratio == 1 {
                lemma_div_nonincreasing(unclaimed as int, 1000000);
                lemma_div_pos_is_pos(unclaimed as int, 1000000);
            } else {
                lemma_basic_div(0, 1000000);
            }
            assert(0 <= claimable <= unclaimed);
        }
        if claimable <= 0 {
            return Err(Error::NothingToClaim);
        }
        self.revenue = Some(
            Revenue {
                total_amount: rv.total_amount,
                distributed_amount: rv.distributed_amount + claimable,
                last_distribution: now,
            },
        );
        Ok(claimable)
    }

    /// The stored offering, if one exists. A pure lookup.
    pub fn get_offering(&self) -> (r: Option<VideoOffering>)
        ensures
            r == self.offering,
    {
        self.offering
    }

    /// The ledger of purchases, if the offering exists. A pure lookup.
    pub fn get_investments(&self) -> (r: Option<Vec<Investment>>)
        ensures
            match r {
                Some(v) => self.offering is Some && v@ == self.investments@,
                None => self.offering is None,
            },
    {
        match &self.offering {
            Some(_) => {
                let mut out: Vec<Investment> = Vec::new();
                let mut i: usize = 0;
                while i < self.investments.len()
                    invariant
                        0 <= i <= self.investments.len(),
                        out@ == self.investments@.take(i as int),
                    decreases self.investments.len() - i,
                {
                    out.push(self.investments[i]);
                    proof {
                        assert(self.investments@.take(i as int + 1) =~= self.investments@.take(
                            i as int,
                        ).push(self.investments@[i as int]));
                    }
                    i = i + 1;
                }
                proof {
                    assert(self.investments@.take(self.investments@.len() as int)
                        =~= self.investments@);
                }
                Some(out)
            },
            None => None,
        }
    }

    /// The revenue record, if one exists. A pure lookup.
    pub fn get_revenue(&self) -> (r: Option<Revenue>)
        ensures
            r == self.revenue,
    {
        self.revenue
    }

    /// The curve price at `now` for the stored offering. A quote only:
    /// nothing is reserved or locked by reading it.
    pub fn get_current_price(&self, now: u64) -> (r: Result<i128, Error>)
        requires
            self.wf(),
            self.offering matches Some(o) ==> video_price_fits(o, now),
        ensures
            match self.offering {
                Some(o) => r == Ok::<i128, Error>((video_price_at(o, now)) as i128),
                None => r == Err::<i128, Error>(Error::NotFound),
            },
    {
        let o = match &self.offering {
            Some(o) => *o,
            None => { return Err(Error::NotFound) },
        };
        Ok(Self::calculate_share_price(&o, now))
    }
}

/// The price at the sale's start is exactly the base price.
pub proof fn lemma_video_price_at_start(o: VideoOffering)
    ensures
        video_price_at(o, o.start_date) == o.base_price,
{
    lemma_basic_div(0, 3600);
    vstd::arithmetic::mul::lemma_mul_basics(o.price_increment as int);
}

/// The step curve never decreases as time advances past the sale's start.
pub proof fn lemma_video_price_monotonic(o: VideoOffering, t1: u64, t2: u64)
    requires
        o.price_increment >= 0,
        t1 <= t2,
    ensures
        video_price_at(o, t1) <= video_price_at(o, t2),
{
    let h1 = hours_since(o.start_date, t1);
    let h2 = hours_since(o.start_date, t2);
    if t1 >= o.start_date {
        lemma_div_is_ordered((t1 - o.start_date) as int, (t2 - o.start_date) as int, 3600);
    } else if t2 >= o.start_date {
        lemma_div_pos_is_pos((t2 - o.start_date) as int, 3600);
    }
    assert(h1 <= h2);
    vstd::arithmetic::mul::lemma_mul_inequality(h1, h2, o.price_increment as int);
    vstd::arithmetic::mul::lemma_mul_is_commutative(h1, o.price_increment as int);
    vstd::arithmetic::mul::lemma_mul_is_commutative(h2, o.price_increment as int);
}

/// Shares sold never exceed the offering's total supply.
pub proof fn lemma_video_shares_sold_bounded(s: VideoShareContract)
    requires
        s.wf(),
        s.offering is Some,
    ensures
        sum_shares(s.investments@) <= s.offering.unwrap().total_shares,
{
}

/// A claimant owning any nonzero fraction smaller than the whole supply is
/// owed nothing: the owned fraction is divided down to zero before scaling.
pub proof fn lemma_partial_owner_claims_nothing(o: VideoOffering, rv: Revenue, claimant_shares: int)
    requires
        o.total_shares > 0,
        0 < claimant_shares < o.total_shares,
    ensures
        claimable_amount(o, rv, claimant_shares) == 0,
{
    lemma_basic_div(claimant_shares, o.total_shares as int);
    lemma_basic_div(0, 1000000);
}

/// A claimant owning the whole supply is owed the undistributed revenue
/// divided by the six-decimal precision unit.
pub proof fn lemma_full_owner_claim(o: VideoOffering, rv: Revenue)
    requires
        o.total_shares > 0,
    ensures
        claimable_amount(o, rv, o.total_shares as int) == (rv.total_amount
            - rv.distributed_amount) / 1000000,
{
    lemma_div_by_self(o.total_shares as int);
}

} // verus!
