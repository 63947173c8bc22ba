use steam_tradeoffer_manager::enums::{ConfirmationMethod, TradeOfferState};
use steam_tradeoffer_manager::polling::{finish_poll, is_called_too_recently, PollData, PollOptions, PollType};
use steam_tradeoffer_manager::response::{EntryMap, TradeOffer};
use std::collections::HashMap;

fn offer(id: u64, state: TradeOfferState) -> TradeOffer {
    TradeOffer {
        tradeofferid: id,
        tradeid: None,
        partner: 76561198000000000,
        message: None,
        items_to_receive: Vec::new(),
        items_to_give: Vec::new(),
        is_our_offer: false,
        from_real_time_trade: false,
        expiration_time: 0,
        time_created: 0,
        time_updated: 0,
        trade_offer_state: state,
        escrow_end_date: None,
        confirmation_method: ConfirmationMethod::Invalid,
    }
}

#[test]
fn repeated_poll_is_ignored() {
    let mut events = EntryMap::from_entries(Vec::new());

    assert!(!is_called_too_recently(&mut events, PollType::Auto, 1000));
    assert!(is_called_too_recently(&mut events, PollType::Auto, 1300));
    assert!(!is_called_too_recently(&mut events, PollType::FullUpdate, 1350));
    assert!(!is_called_too_recently(&mut events, PollType::Auto, 1800));
}

#[test]
fn finished_poll_records_states_and_previous_states() {
    let mut data = PollData::new();
    let mut prev = HashMap::new();

    prev.insert(1, TradeOfferState::Active);

    let reported = finish_poll(
        &mut data,
        vec![offer(1, TradeOfferState::Accepted), offer(2, TradeOfferState::Active)],
        prev,
    );

    assert_eq!(reported.len(), 2);
    assert_eq!(reported[0].1, Some(TradeOfferState::Active));
    assert_eq!(reported[1].1, None);
    assert_eq!(data.state_map.get(&1), Some(&TradeOfferState::Accepted));
    assert!(data.take_changed());
}

#[test]
fn sanity_check_raises_short_intervals() {
    let mut options = PollOptions { cancel_duration: None, poll_full_update_duration: 10, poll_interval: 999 };

    options.sanity_check();
    assert_eq!(options.poll_full_update_duration, 1000);
    assert_eq!(options.poll_interval, 1000);
}

#[test]
fn full_update_goes_stale() {
    let mut data = PollData::new();

    assert!(data.last_full_poll_is_stale(0, 300_000));
    data.set_last_poll_full_update(1_000);
    assert!(!data.last_full_poll_is_stale(2_000, 300_000));
    assert!(data.last_full_poll_is_stale(301_000, 300_000));
}

use steam_tradeoffer_manager::polling::{apply_poll_offers, cancel_time, offers_to_cancel, plan_poll};
use steam_tradeoffer_manager::response::{RawAsset, RawTradeOffer};

fn raw(id: u64, state: TradeOfferState, ours: bool, updated: i64) -> RawTradeOffer {
    RawTradeOffer {
        tradeofferid: id,
        tradeid: None,
        accountid_other: 1,
        message: None,
        items_to_receive: vec![RawAsset {
            appid: 440,
            contextid: 2,
            assetid: id,
            amount: 1,
            missing: false,
            classid: 1,
            instanceid: None,
        }],
        items_to_give: Vec::new(),
        is_our_offer: ours,
        from_real_time_trade: false,
        expiration_time: 0,
        time_created: updated,
        time_updated: updated,
        trade_offer_state: state,
        escrow_end_date: None,
        confirmation_method: ConfirmationMethod::Invalid,
    }
}

#[test]
fn reported_change_is_not_reported_again() {
    let mut data = PollData::new();
    let now = 1_000_000;
    let plan = plan_poll(&data, PollType::Auto, now, 300_000);
    let changes = apply_poll_offers(&mut data, vec![raw(1, TradeOfferState::Active, false, 500)], &[], &plan, PollType::Auto, now);

    assert_eq!(changes.offers.len(), 1);
    finish_poll(&mut data, vec![offer(1, TradeOfferState::Active)], changes.prev_states);

    let plan = plan_poll(&data, PollType::Auto, now + 1, 300_000);
    let again = apply_poll_offers(&mut data, vec![raw(1, TradeOfferState::Active, false, 500)], &[], &plan, PollType::Auto, now + 1);

    assert!(again.offers.is_empty());

    let changed = apply_poll_offers(&mut data, vec![raw(1, TradeOfferState::Accepted, false, 600)], &[], &plan, PollType::Auto, now + 2);

    assert_eq!(changed.offers.len(), 1);
    assert_eq!(changed.prev_states.get(&1), Some(&TradeOfferState::Active));
}

#[test]
fn cancels_only_stale_own_offers() {
    let offers = vec![
        raw(1, TradeOfferState::Active, true, 100),
        raw(2, TradeOfferState::Active, false, 100),
        raw(3, TradeOfferState::Active, true, 5_000),
        raw(4, TradeOfferState::Accepted, true, 100),
        raw(5, TradeOfferState::CreatedNeedsConfirmation, true, 100),
    ];
    let cancelled = offers_to_cancel(&offers, cancel_time(10_000, 6_000));

    assert_eq!(cancelled, vec![1, 5]);

    let mut data = PollData::new();
    let plan = plan_poll(&data, PollType::Auto, 10_000, 300_000);
    let changes = apply_poll_offers(&mut data, offers, &cancelled, &plan, PollType::Auto, 10_000);

    assert_eq!(changes.offers[0].trade_offer_state, TradeOfferState::Canceled);
}
