use vstd::arithmetic::div_mod::{
    lemma_div_by_multiple, lemma_div_is_ordered, lemma_div_pos_is_pos,
};
use vstd::arithmetic::mul::{lemma_mul_inequality, lemma_mul_is_commutative, lemma_mul_nonnegative};
use vstd::prelude::*;

use crate::errors::Error;
use crate::ledger::{
    all_shares_positive, lemma_sum_shares_push, revenue_wf, sum_shares, AccountId, Investment,
    Revenue,
};

verus! {

/// The fixed parameters and the mutable supply of one live stream's share
/// sale.
#[derive(Clone, Copy, Debug, PartialEq, Eq, Structural)]
pub struct StreamOffering {
    pub creator: AccountId,
    pub total_shares: i128,
    pub base_price: i128,
    pub pre_live_start: u64,
    pub stream_start: u64,
    pub remaining_shares: i128,
    pub max_price: i128,
}

/// Where a stream stands relative to its pre-live window: transitions are
/// driven solely by the clock, never stored, and never revert.
#[derive(Clone, Copy, Debug, PartialEq, Eq, Structural)]
pub enum StreamStatus {
    Upcoming,
    PreLive,
    Live,
}

/// The state the host keeps for one stream asset: its offering, its ledger
/// of purchases, and its revenue account (created zeroed at the offering).
pub struct LiveStreamContract {
    pub offering: Option<StreamOffering>,
    pub investments: Vec<Investment>,
    pub revenue: Option<Revenue>,
}

/// The three-phase pricing curve: the base price before the pre-live window,
/// a linear interpolation towards the maximum price during it, and the
/// maximum price once the stream has started.
pub open spec fn stream_price_at(o: StreamOffering, t: u64) -> int {
    if t < o.pre_live_start {
        o.base_price as int
    } else if t >= o.stream_start {
        o.max_price as int
    } else {
        o.base_price + (o.max_price - o.base_price) * (t - o.pre_live_start) / (o.stream_start
            - o.pre_live_start)
    }
}

/// During the pre-live window the interpolation's scaled numerator fits the
/// monetary type. A machine limit, not a rule of the ledger.
pub open spec fn stream_price_fits(o: StreamOffering, t: u64) -> bool {
    (o.pre_live_start <= t < o.stream_start) ==> (o.max_price - o.base_price) * (t
        - o.pre_live_start) <= i128::MAX
}

/// The status the clock dictates at time `t`.
pub open spec fn stream_status_at(o: StreamOffering, t: u64) -> StreamStatus {
    if t < o.pre_live_start {
        StreamStatus::Upcoming
    } else if t < o.stream_start {
        StreamStatus::PreLive
    } else {
        StreamStatus::Live
    }
}

/// The position of a status in the one-way progression
/// upcoming, pre-live, live.
pub open spec fn status_rank(st: StreamStatus) -> int {
    match st {
        StreamStatus::Upcoming => 0,
        StreamStatus::PreLive => 1,
        StreamStatus::Live => 2,
    }
}

/// Validity of a stream offering record: positive supply and base price, a
/// maximum price above the base, supply within bounds, and an ordered
/// pre-live window.
pub open spec fn stream_offering_wf(o: StreamOffering) -> bool {
    &&& o.total_shares > 0
    &&& o.base_price > 0
    &&& o.max_price > o.base_price
    &&& 0 <= o.remaining_shares <= o.total_shares
    &&& o.pre_live_start <= o.stream_start
}

/// The constructor arguments `create_stream_offering` accepts.
pub open spec fn stream_create_params_ok(
    total_shares: i128,
    base_price: i128,
    max_price: i128,
) -> bool {
    total_shares > 0 && base_price > 0 && max_price > base_price
}

/// When the pre-live window opens: the stream start minus the pre-live
/// duration in hours. Negative when the duration reaches back past time
/// zero; such a window is never in the future.
pub open spec fn stream_pre_live_start(
    stream_start_timestamp: u64,
    pre_live_duration_hours: u32,
) -> int {
    stream_start_timestamp - pre_live_duration_hours * 3600
}

/// Which error a purchase request is refused with, if any, in the order the
/// checks are made: amount, existence, window, then supply. Purchases close
/// the moment the stream starts.
pub open spec fn stream_buy_outcome(
    s: LiveStreamContract,
    now: u64,
    shares: i128,
) -> Option<Error> {
    if shares <= 0 {
        Some(Error::InvalidAmount)
    } else {
        match s.offering {
            None => Some(Error::NotFound),
            Some(o) => if now >= o.stream_start {
                Some(Error::WindowClosed)
            } else if shares > o.remaining_shares {
                Some(Error::InsufficientSupply)
            } else {
                None
            },
        }
    }
}

/// On an admissible purchase, the unit price and the total cost both fit the
/// monetary type. A machine limit, not a rule of the ledger.
pub open spec fn stream_buy_fits(s: LiveStreamContract, now: u64, shares: i128) -> bool {
    match s.offering {
        Some(o) => (shares > 0 && now < o.stream_start && shares <= o.remaining_shares) ==> (
        stream_price_fits(o, now) && stream_price_at(o, now) * shares <= i128::MAX),
        None => true,
    }
}

/// Which error a deposit request is refused with, if any. The revenue record
/// is created together with the offering, so a missing one is its own
/// failure.
pub open spec fn stream_deposit_outcome(
    s: LiveStreamContract,
    caller: AccountId,
    amount: i128,
) -> Option<Error> {
    if amount <= 0 {
        Some(Error::InvalidAmount)
    } else {
        match s.offering {
            None => Some(Error::NotFound),
            Some(o) => if caller != o.creator {
                Some(Error::Unauthorized)
            } else if s.revenue is None {
                Some(Error::NotFound)
            } else {
                None
            },
        }
    }
}

/// The revenue already deposited for the asset, zero while no record exists.
pub open spec fn stream_deposited_total(s: LiveStreamContract) -> int {
    match s.revenue {
        Some(rv) => rv.total_amount as int,
        None => 0,
    }
}

impl LiveStreamContract {
    /// The state invariant: a present offering is valid, its ledger accounts
    /// exactly for the shares sold, and its revenue record exists; an absent
    /// offering has an empty ledger; a present revenue record is consistent.
    pub open spec fn wf(self) -> bool {
        &&& match self.offering {
            Some(o) => {
                &&& stream_offering_wf(o)
                &&& sum_shares(self.investments@) == o.total_shares - o.remaining_shares
                &&& all_shares_positive(self.investments@)
                &&& self.revenue is Some
            },
            None => self.investments@.len() == 0,
        }
        &&& match self.revenue {
            Some(rv) => revenue_wf(rv),
            None => true,
        }
    }

    /// Field-for-field equality of the observable state.
    pub open spec fn same_state(self, other: LiveStreamContract) -> bool {
        &&& self.offering == other.offering
        &&& self.investments@ == other.investments@
        &&& self.revenue == other.revenue
    }

    /// Fresh state for an asset id the host has never written: nothing exists.
    pub fn new() -> (s: Self)
        ensures
            s.offering is None,
            s.investments@.len() == 0,
            s.revenue is None,
            s.wf(),
    {
        LiveStreamContract { offering: None, investments: Vec::new(), revenue: None }
    }

    /// Opens a sale of `total_shares` shares whose price climbs from
    /// `base_price` to `max_price` across a pre-live window of
    /// `pre_live_duration_hours` hours ending at `stream_start_timestamp`.
    /// The window must lie strictly in the future. The caller becomes the
    /// creator, permanently; the revenue record starts zeroed. An existing
    /// offering is silently overwritten and its ledger reset.
    pub fn create_stream_offering(
        &mut self,
        caller: AccountId,
        now: u64,
        total_shares: i128,
        base_price: i128,
        max_price: i128,
        pre_live_duration_hours: u32,
        stream_start_timestamp: u64,
    ) -> (r: Result<(), Error>)
        requires
            old(self).wf(),
        ensures
            final(self).wf(),
            !stream_create_params_ok(total_shares, base_price, max_price) ==> (r == Err::<
                (),
                Error,
            >(Error::InvalidParameter) && final(self).same_state(*old(self))),
            (stream_create_params_ok(total_shares, base_price, max_price)
                && stream_pre_live_start(stream_start_timestamp, pre_live_duration_hours) <= now)
                ==> (r == Err::<(), Error>(Error::InvalidParameter) && final(self).same_state(
                *old(self),
            )),
            (stream_create_params_ok(total_shares, base_price, max_price)
                && stream_pre_live_start(stream_start_timestamp, pre_live_duration_hours) > now)
                ==> (r == Ok::<(), Error>(()) && final(self).offering == Some(
                (StreamOffering {
                    creator: caller,
                    total_shares,
                    base_price,
                    pre_live_start: (stream_pre_live_start(
                        stream_start_timestamp,
                        pre_live_duration_hours,
                    )) as u64,
                    stream_start: stream_start_timestamp,
                    remaining_shares: total_shares,
                    max_price,
                }),
            ) && final(self).investments@.len() == 0 && final(self).revenue == Some(
                (Revenue { total_amount: 0, distributed_amount: 0, last_distribution: now }),
            )),
    {
        if total_shares <= 0 || base_price <= 0 || max_price <= base_price {
            return Err(Error::InvalidParameter);
        }
        let pre_live_seconds: u64 = pre_live_duration_hours as u64 * 3600;
        if stream_start_timestamp < pre_live_seconds {
            // The window would open before time zero: not in the future.
            return Err(Error::InvalidParameter);
        }
        let pre_live_start: u64 = stream_start_timestamp - pre_live_seconds;
        if pre_live_start <= now {
            return Err(Error::InvalidParameter);
        }
        self.offering = Some(
            StreamOffering {
                creator: caller,
                total_shares,
                base_price,
                pre_live_start,
                stream_start: stream_start_timestamp,
                remaining_shares: total_shares,
                max_price,
            },
        );
        self.investments = Vec::new();
        self.revenue = Some(
            Revenue { total_amount: 0, distributed_amount: 0, last_distribution: now },
        );
        Ok(())
    }

    /// The three-phase curve evaluated against a stored offering at `now`.
    fn calculate_share_price(o: &StreamOffering, now: u64) -> (price: i128)
        requires
            stream_offering_wf(*o),
            stream_price_fits(*o, now),
        ensures
            price == stream_price_at(*o, now),
            o.base_price <= price <= o.max_price,
    {
        if now < o.pre_live_start {
            return o.base_price;
        }
        if now >= o.stream_start {
            return o.max_price;
        }
        let total_duration: u64 = o.stream_start - o.pre_live_start;
        let elapsed: u64 = now - o.pre_live_start;
        let price_range: i128 = o.max_price - o.base_price;
        proof {
            lemma_mul_nonnegative(price_range as int, elapsed as int);
        }
        let scaled: i128 = price_range * (elapsed as i128);
        proof {
            lemma_div_pos_is_pos(scaled as int, total_duration as int);
            lemma_mul_inequality(elapsed as int, total_duration as int, price_range as int);
            lemma_mul_is_commutative(elapsed as int, price_range as int);
            lemma_mul_is_commutative(total_duration as int, price_range as int);
            lemma_div_is_ordered(
                scaled as int,
                price_range * total_duration as int,
                total_duration as int,
            );
            lemma_div_by_multiple(price_range as int, total_duration as int);
        }
        let offset: i128 = ((scaled as u128) / (total_duration as u128)) as i128;
        o.base_price + offset
    }

    /// Buys `shares_to_buy` shares at the price the curve gives for `now`,
    /// appends the purchase to the ledger, and reduces the remaining supply.
    /// Nothing changes on failure. No price is reserved between calls.
    pub fn buy_shares(&mut self, caller: AccountId, now: u64, shares_to_buy: i128) -> (r: Result<
        (),
        Error,
    >)
        requires
            old(self).wf(),
            stream_buy_fits(*old(self), now, shares_to_buy),
        ensures
            final(self).wf(),
            (stream_buy_outcome(*old(self), now, shares_to_buy) matches Some(e) ==> r == Err::<
                (),
                Error,
            >(e) && final(self).same_state(*old(self))),
            (stream_buy_outcome(*old(self), now, shares_to_buy) is None ==> (r == Ok::<(), Error>(
                (),
            ) && (match old(self).offering {
                Some(o) => final(self).offering == Some(
                    (StreamOffering { remaining_shares: (o.remaining_shares - shares_to_buy) as i128, ..o }),
                ) && final(self).investments@ == old(self).investments@.push(
                    (Investment {
                        investor: caller,
                        shares: shares_to_buy,
                        amount_paid: (stream_price_at(o, now) * shares_to_buy) as i128,
                        timestamp: now,
                    }),
                ) && final(self).revenue == old(self).revenue,
                None => false,
            }))),
    {
        if shares_to_buy <= 0 {
            return Err(Error::InvalidAmount);
        }
        let o = match &self.offering {
            Some(o) => *o,
            None => { return Err(Error::NotFound) },
        };
        if now >= o.stream_start {
            return Err(Error::WindowClosed);
        }
        if shares_to_buy > o.remaining_shares {
            return Err(Error::InsufficientSupply);
        }
        let price_per_share: i128 = Self::calculate_share_price(&o, now);
        proof {
            assert(price_per_share * shares_to_buy >= 0) by (nonlinear_arith)
                requires
                    price_per_share >= 0,
                    shares_to_buy >= 0,
            ;
        }
        let total_cost: i128 = price_per_share * shares_to_buy;
        let record = Investment {
            investor: caller,
            shares: shares_to_buy,
            amount_paid: total_cost,
            timestamp: now,
        };
        proof {
            lemma_sum_shares_push(self.investments@, record);
        }
        self.investments.push(record);
        self.offering = Some(
            StreamOffering { remaining_shares: o.remaining_shares - shares_to_buy, ..o },
        );
        Ok(())
    }

    /// Records `amount` more revenue for the asset. Only the creator may
    /// deposit. This only records the obligation — settlement is the host's
    /// business.
    pub fn deposit_revenue(&mut self, caller: AccountId, amount: i128) -> (r: Result<(), Error>)
        requires
            old(self).wf(),
            stream_deposit_outcome(*old(self), caller, amount) is None ==> stream_deposited_total(
                *old(self),
            ) + amount <= i128::MAX,
        ensures
            final(self).wf(),
            (stream_deposit_outcome(*old(self), caller, amount) matches Some(e) ==> r == Err::<
                (),
                Error,
            >(e) && final(self).same_state(*old(self))),
            (stream_deposit_outcome(*old(self), caller, amount) is None ==> (r == Ok::<(), Error>(
                (),
            ) && final(self).offering == old(self).offering && final(self).investments@ == old(
                self,
            ).investments@ && (match old(self).revenue {
                Some(rv) => final(self).revenue == Some(
                    (Revenue {
                        total_amount: (rv.total_amount + amount) as i128,
                        distributed_amount: rv.distributed_amount,
                        last_distribution: rv.last_distribution,
                    }),
                ),
                None => false,
            }))),
    {
        if amount <= 0 {
            return Err(Error::InvalidAmount);
        }
        let o = match &self.offering {
            Some(o) => *o,
            None => { return Err(Error::NotFound) },
        };
        if caller != o.creator {
            return Err(Error::Unauthorized);
        }
        let rv = match &self.revenue {
            Some(rv) => *rv,
            None => { return Err(Error::NotFound) },
        };
        self.revenue = Some(
            Revenue {
                total_amount: rv.total_amount + amount,
                distributed_amount: rv.distributed_amount,
                last_distribution: rv.last_distribution,
            },
        );
        Ok(())
    }

    /// The stored offering, if one exists. A pure lookup.
    pub fn get_offering(&self) -> (r: Option<StreamOffering>)
        ensures
            r == self.offering,
    {
        self.offering
    }

    /// The ledger of purchases, if the offering exists. A pure lookup.
    pub fn get_investments(&self) -> (r: Option<Vec<Investment>>)
        ensures
            match r {
                Some(v) => self.offering is Some && v@ == self.investments@,
                None => self.offering is None,
            },
    {
        match &self.offering {
            Some(_) => {
                let mut out: Vec<Investment> = Vec::new();
                let mut i: usize = 0;
                while i < self.investments.len()
                    invariant
                        0 <= i <= self.investments.len(),
                        out@ == self.investments@.take(i as int),
                    decreases self.investments.len() - i,
                {
                    out.push(self.investments[i]);
                    proof {
                        assert(self.investments@.take(i as int + 1) =~= self.investments@.take(
                            i as int,
                        ).push(self.investments@[i as int]));
                    }
                    i = i + 1;
                }
                proof {
                    assert(self.investments@.take(self.investments@.len() as int)
                        =~= self.investments@);
                }
                Some(out)
            },
            None => None,
        }
    }

    /// The curve price at `now` for the stored offering. A quote only:
    /// nothing is reserved or locked by reading it.
    pub fn get_current_price(&self, now: u64) -> (r: Result<i128, Error>)
        requires
            self.wf(),
            self.offering matches Some(o) ==> stream_price_fits(o, now),
        ensures
            match self.offering {
                Some(o) => r == Ok::<i128, Error>((stream_price_at(o, now)) as i128),
                None => r == Err::<i128, Error>(Error::NotFound),
            },
    {
        let o = match &self.offering {
            Some(o) => *o,
            None => { return Err(Error::NotFound) },
        };
        Ok(Self::calculate_share_price(&o, now))
    }

    /// The stream's status as the clock dictates it at `now`. Derived, never
    /// stored.
    pub fn get_stream_status(&self, now: u64) -> (r: Result<StreamStatus, Error>)
        ensures
            match self.offering {
                Some(o) => r == Ok::<StreamStatus, Error>(stream_status_at(o, now)),
                None => r == Err::<StreamStatus, Error>(Error::NotFound),
            },
    {
        let o = match &self.offering {
            Some(o) => *o,
            None => { return Err(Error::NotFound) },
        };
        if now < o.pre_live_start {
            Ok(StreamStatus::Upcoming)
        } else if now < o.stream_start {
            Ok(StreamStatus::PreLive)
        } else {
            Ok(StreamStatus::Live)
        }
    }
}

/// The status progression never reverts: as time advances, a stream's status
/// only moves forward through upcoming, pre-live, live.
pub proof fn lemma_stream_status_monotonic(o: StreamOffering, t1: u64, t2: u64)
    requires
        t1 <= t2,
    ensures
        status_rank(stream_status_at(o, t1)) <= status_rank(stream_status_at(o, t2)),
{
}

/// Shares sold never exceed the offering's total supply.
pub proof fn lemma_stream_shares_sold_bounded(s: LiveStreamContract)
    requires
        s.wf(),
        s.offering is Some,
    ensures
        sum_shares(s.investments@) <= s.offering.unwrap().total_shares,
{
}

/// Before the pre-live window the curve sits at the base price; from the
/// stream's start onward it sits at the maximum price.
pub proof fn lemma_stream_price_phases(o: StreamOffering, t: u64)
    requires
        o.pre_live_start <= o.stream_start,
    ensures
        t < o.pre_live_start ==> stream_price_at(o, t) == o.base_price,
        t >= o.stream_start ==> stream_price_at(o, t) == o.max_price,
{
}

} // verus!
