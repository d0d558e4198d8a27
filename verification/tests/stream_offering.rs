use media_shares::errors::Error;
use media_shares::ledger::AccountId;
use media_shares::live_stream::{LiveStreamContract, StreamStatus};

const HOUR: u64 = 60 * 60;

fn created(creator: u64, now: u64, stream_start: u64) -> LiveStreamContract {
    let mut c = LiveStreamContract::new();
    c.create_stream_offering(AccountId(creator), now, 1000, 100, 1000, 12, stream_start)
        .unwrap();
    c
}

#[test]
fn test_create_stream() {
    let mut c = LiveStreamContract::new();
    let current_time = 0;
    let stream_start = current_time + 24 * 60 * 60; // 24 hours from now
    c.create_stream_offering(
        AccountId(1),
        current_time,
        1000, // total shares
        100,  // base price
        1000, // max price
        12,   // pre-live duration hours
        stream_start,
    )
    .unwrap();

    let offering = c.get_offering().unwrap();
    assert_eq!(offering.total_shares, 1000);
    assert_eq!(offering.base_price, 100);
    assert_eq!(offering.max_price, 1000);
}

#[test]
fn stream_creation_fixes_window_and_zeroes_revenue() {
    let c = created(1, 0, 24 * HOUR);
    let offering = c.get_offering().unwrap();
    assert_eq!(offering.creator, AccountId(1));
    assert_eq!(offering.pre_live_start, 12 * HOUR);
    assert_eq!(offering.stream_start, 24 * HOUR);
    assert_eq!(offering.remaining_shares, 1000);
    let rv = c.revenue.unwrap();
    assert_eq!(rv.total_amount, 0);
    assert_eq!(rv.distributed_amount, 0);
    assert_eq!(c.get_investments().unwrap().len(), 0);
}

#[test]
fn stream_create_rejects_bad_parameters() {
    let mut c = LiveStreamContract::new();
    assert_eq!(
        c.create_stream_offering(AccountId(1), 0, 0, 100, 1000, 12, 24 * HOUR),
        Err(Error::InvalidParameter)
    );
    assert_eq!(
        c.create_stream_offering(AccountId(1), 0, 1000, 0, 1000, 12, 24 * HOUR),
        Err(Error::InvalidParameter)
    );
    // The maximum price must exceed the base price.
    assert_eq!(
        c.create_stream_offering(AccountId(1), 0, 1000, 100, 100, 12, 24 * HOUR),
        Err(Error::InvalidParameter)
    );
    assert!(c.get_offering().is_none());
}

#[test]
fn stream_create_rejects_non_future_pre_live_window() {
    let mut c = LiveStreamContract::new();
    // pre_live_start == 12h, which is not after now == 13h.
    assert_eq!(
        c.create_stream_offering(AccountId(1), 13 * HOUR, 1000, 100, 1000, 12, 24 * HOUR),
        Err(Error::InvalidParameter)
    );
    // pre_live_start exactly at now is rejected as well.
    assert_eq!(
        c.create_stream_offering(AccountId(1), 12 * HOUR, 1000, 100, 1000, 12, 24 * HOUR),
        Err(Error::InvalidParameter)
    );
    assert!(c.get_offering().is_none());
}

#[test]
fn stream_create_rejects_window_reaching_past_time_zero() {
    let mut c = LiveStreamContract::new();
    // A 12-hour pre-live window cannot end at a stream start one hour after
    // time zero: such a window is not in the future.
    assert_eq!(
        c.create_stream_offering(AccountId(1), 0, 1000, 100, 1000, 12, HOUR),
        Err(Error::InvalidParameter)
    );
    // Rejected whatever the other parameters are.
    assert_eq!(
        c.create_stream_offering(AccountId(1), 0, 0, 100, 1000, 12, HOUR),
        Err(Error::InvalidParameter)
    );
    assert!(c.get_offering().is_none());
}

#[test]
fn stream_status_progresses_and_never_reverts() {
    let c = created(1, 0, 24 * HOUR);
    assert_eq!(c.get_stream_status(10), Ok(StreamStatus::Upcoming));
    assert_eq!(
        c.get_stream_status(12 * HOUR - 1),
        Ok(StreamStatus::Upcoming)
    );
    assert_eq!(c.get_stream_status(12 * HOUR), Ok(StreamStatus::PreLive));
    assert_eq!(
        c.get_stream_status(24 * HOUR - 1),
        Ok(StreamStatus::PreLive)
    );
    assert_eq!(c.get_stream_status(24 * HOUR), Ok(StreamStatus::Live));
    assert_eq!(c.get_stream_status(48 * HOUR), Ok(StreamStatus::Live));
}

#[test]
fn stream_status_without_offering_is_not_found() {
    let c = LiveStreamContract::new();
    assert_eq!(c.get_stream_status(0), Err(Error::NotFound));
}

#[test]
fn stream_price_follows_three_phases() {
    let c = created(1, 0, 24 * HOUR);
    // Before the pre-live window: the base price.
    assert_eq!(c.get_current_price(0), Ok(100));
    assert_eq!(c.get_current_price(12 * HOUR - 1), Ok(100));
    // At the window's opening the interpolation starts at the base price.
    assert_eq!(c.get_current_price(12 * HOUR), Ok(100));
    // Half way through: base + (max - base) / 2.
    assert_eq!(c.get_current_price(18 * HOUR), Ok(550));
    // A quarter through.
    assert_eq!(c.get_current_price(15 * HOUR), Ok(325));
    // From the stream's start onward: the maximum price.
    assert_eq!(c.get_current_price(24 * HOUR), Ok(1000));
    assert_eq!(c.get_current_price(48 * HOUR), Ok(1000));
}

#[test]
fn stream_price_without_offering_is_not_found() {
    let c = LiveStreamContract::new();
    assert_eq!(c.get_current_price(0), Err(Error::NotFound));
}

#[test]
fn stream_buy_records_investment_and_reduces_supply() {
    let mut c = created(1, 0, 24 * HOUR);
    assert_eq!(c.buy_shares(AccountId(2), 18 * HOUR, 4), Ok(()));
    assert_eq!(c.get_offering().unwrap().remaining_shares, 996);
    let ledger = c.get_investments().unwrap();
    assert_eq!(ledger.len(), 1);
    assert_eq!(ledger[0].investor, AccountId(2));
    assert_eq!(ledger[0].shares, 4);
    assert_eq!(ledger[0].amount_paid, 4 * 550);
    assert_eq!(ledger[0].timestamp, 18 * HOUR);
}

#[test]
fn stream_buy_from_stream_start_is_window_closed() {
    let mut c = created(1, 0, 24 * HOUR);
    // The instant the stream starts the window is already closed,
    // regardless of the full remaining supply.
    assert_eq!(
        c.buy_shares(AccountId(2), 24 * HOUR, 1),
        Err(Error::WindowClosed)
    );
    assert_eq!(
        c.buy_shares(AccountId(2), 30 * HOUR, 1),
        Err(Error::WindowClosed)
    );
    // One second before, it is open.
    assert_eq!(c.buy_shares(AccountId(2), 24 * HOUR - 1, 1), Ok(()));
}

#[test]
fn stream_buy_zero_shares_is_invalid_amount() {
    let mut c = created(1, 0, 24 * HOUR);
    assert_eq!(c.buy_shares(AccountId(2), 0, 0), Err(Error::InvalidAmount));
    assert_eq!(c.get_offering().unwrap().remaining_shares, 1000);
}

#[test]
fn stream_buy_without_offering_is_not_found() {
    let mut c = LiveStreamContract::new();
    assert_eq!(c.buy_shares(AccountId(2), 0, 1), Err(Error::NotFound));
}

#[test]
fn stream_oversubscription_fails_and_changes_nothing() {
    let mut c = created(1, 0, 24 * HOUR);
    assert_eq!(c.buy_shares(AccountId(2), 0, 600), Ok(()));
    assert_eq!(
        c.buy_shares(AccountId(3), 0, 500),
        Err(Error::InsufficientSupply)
    );
    assert_eq!(c.get_offering().unwrap().remaining_shares, 400);
    assert_eq!(c.get_investments().unwrap().len(), 1);
    assert_eq!(c.buy_shares(AccountId(3), 0, 400), Ok(()));
    assert_eq!(
        c.buy_shares(AccountId(4), 0, 1),
        Err(Error::InsufficientSupply)
    );
}

#[test]
fn stream_deposit_by_non_creator_is_unauthorized() {
    let mut c = created(1, 0, 24 * HOUR);
    assert_eq!(
        c.deposit_revenue(AccountId(2), 500),
        Err(Error::Unauthorized)
    );
    assert_eq!(c.revenue.unwrap().total_amount, 0);
}

#[test]
fn stream_deposit_by_creator_adds_exactly_the_amount() {
    let mut c = created(1, 0, 24 * HOUR);
    assert_eq!(c.deposit_revenue(AccountId(1), 500), Ok(()));
    assert_eq!(c.revenue.unwrap().total_amount, 500);
    assert_eq!(c.deposit_revenue(AccountId(1), 250), Ok(()));
    let rv = c.revenue.unwrap();
    assert_eq!(rv.total_amount, 750);
    assert_eq!(rv.distributed_amount, 0);
}

#[test]
fn stream_deposit_rejects_non_positive_amounts() {
    let mut c = created(1, 0, 24 * HOUR);
    assert_eq!(c.deposit_revenue(AccountId(1), 0), Err(Error::InvalidAmount));
    assert_eq!(
        c.deposit_revenue(AccountId(1), -10),
        Err(Error::InvalidAmount)
    );
    assert_eq!(c.revenue.unwrap().total_amount, 0);
}

#[test]
fn stream_deposit_without_offering_is_not_found() {
    let mut c = LiveStreamContract::new();
    assert_eq!(c.deposit_revenue(AccountId(1), 10), Err(Error::NotFound));
}
