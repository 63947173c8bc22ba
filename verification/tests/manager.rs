use std::sync::Arc;
use steam_tradeoffer_manager::enums::{ConfirmationMethod, ConfirmationType, OfferFilter, TradeOfferState};
use steam_tradeoffer_manager::error::{Error, ParameterError};
use steam_tradeoffer_manager::manager::{
    active_offers_cutoff, after_accept, check_accept, check_cancel, check_decline, check_start_polling,
    find_confirmation, get_steamid, receipt_plan, set_state, trade_offers_options, trim_offers,
    update_offer, AcceptedOffer, Confirmation, ReceiptPlan,
};
use steam_tradeoffer_manager::response::{Asset, ClassInfo, RawTradeOffer, TradeOffer};

fn offer(id: u64, state: TradeOfferState, ours: bool) -> TradeOffer {
    TradeOffer {
        tradeofferid: id,
        tradeid: None,
        partner: 76561198000000000,
        message: Some("hi".to_string()),
        items_to_receive: Vec::new(),
        items_to_give: Vec::new(),
        is_our_offer: ours,
        from_real_time_trade: false,
        expiration_time: 0,
        time_created: 0,
        time_updated: 0,
        trade_offer_state: state,
        escrow_end_date: None,
        confirmation_method: ConfirmationMethod::Invalid,
    }
}

fn accepted(mobile: bool) -> AcceptedOffer {
    AcceptedOffer {
        tradeid: None,
        needs_mobile_confirmation: mobile,
        needs_email_confirmation: false,
        email_domain: None,
    }
}

#[test]
fn only_active_offers_of_others_are_accepted() {
    assert_eq!(
        check_accept(&offer(1, TradeOfferState::Active, true)),
        Err(Error::Parameter(ParameterError::CannotAcceptOfferWeCreated))
    );
    assert_eq!(
        check_accept(&offer(1, TradeOfferState::Declined, false)),
        Err(Error::Parameter(ParameterError::CannotAcceptOfferThatIsNotActive(TradeOfferState::Declined)))
    );
    assert_eq!(check_accept(&offer(1, TradeOfferState::Active, false)), Ok(()));
}

#[test]
fn accepted_offer_needing_confirmation_keeps_state() {
    let mut o = offer(1, TradeOfferState::Active, false);

    after_accept(&mut o, &accepted(true));
    assert_eq!(o.trade_offer_state, TradeOfferState::Active);
    after_accept(&mut o, &accepted(false));
    assert_eq!(o.trade_offer_state, TradeOfferState::Accepted);
    assert_eq!(o.message, Some("hi".to_string()));
}

#[test]
fn cancel_and_decline_checks() {
    assert_eq!(
        check_cancel(&offer(1, TradeOfferState::Active, false)),
        Err(Error::Parameter(ParameterError::CannotCancelOfferWeDidNotCreate))
    );
    assert_eq!(check_cancel(&offer(1, TradeOfferState::Active, true)), Ok(()));
    assert_eq!(
        check_decline(&offer(1, TradeOfferState::Active, true)),
        Err(Error::Parameter(ParameterError::CannotDeclineOfferWeCreated))
    );

    let mut o = offer(1, TradeOfferState::Active, true);

    set_state(&mut o, TradeOfferState::Canceled);
    assert_eq!(o.trade_offer_state, TradeOfferState::Canceled);
}

#[test]
fn plans_receipts() {
    assert_eq!(
        receipt_plan(&offer(1, TradeOfferState::Active, false)),
        Err(Error::Parameter(ParameterError::NotInAcceptedState(TradeOfferState::Active)))
    );
    assert_eq!(receipt_plan(&offer(1, TradeOfferState::Accepted, false)), Ok(ReceiptPlan::Empty));

    let mut o = offer(1, TradeOfferState::Accepted, false);

    o.items_to_receive.push(Asset {
        appid: 440,
        contextid: 2,
        assetid: 1,
        amount: 1,
        missing: false,
        classinfo: Arc::new(ClassInfo {
            name: "Key".to_string(),
            market_name: "Key".to_string(),
            market_hash_name: "Key".to_string(),
            tradable: true,
            marketable: true,
            commodity: true,
        }),
    });
    assert_eq!(receipt_plan(&o), Err(Error::Parameter(ParameterError::MissingTradeId)));
    o.tradeid = Some(55);
    assert_eq!(receipt_plan(&o), Ok(ReceiptPlan::Fetch(55)));
}

#[test]
fn updates_offer_fields() {
    let mut o = offer(1, TradeOfferState::Active, false);
    let updated = RawTradeOffer {
        tradeofferid: 1,
        tradeid: Some(9),
        accountid_other: 1,
        message: None,
        items_to_receive: Vec::new(),
        items_to_give: Vec::new(),
        is_our_offer: true,
        from_real_time_trade: false,
        expiration_time: 10,
        time_created: 11,
        time_updated: 12,
        trade_offer_state: TradeOfferState::Accepted,
        escrow_end_date: Some(13),
        confirmation_method: ConfirmationMethod::Email,
    };

    update_offer(&mut o, &updated);
    assert_eq!(o.tradeid, Some(9));
    assert_eq!(o.trade_offer_state, TradeOfferState::Accepted);
    assert_eq!(o.time_updated, 12);
    assert_eq!(o.confirmation_method, ConfirmationMethod::Email);
    // The partner, message and side are not updated.
    assert_eq!(o.message, Some("hi".to_string()));
    assert!(!o.is_our_offer);
}

#[test]
fn trims_offers_by_filter() {
    let offers = vec![
        offer(1, TradeOfferState::Active, false),
        offer(2, TradeOfferState::Accepted, false),
        offer(3, TradeOfferState::Active, true),
    ];
    let ids = |v: Vec<TradeOffer>| v.iter().map(|o| o.tradeofferid).collect::<Vec<_>>();

    assert_eq!(ids(trim_offers(offers.clone(), OfferFilter::ActiveOnly)), vec![1, 3]);
    assert_eq!(ids(trim_offers(offers.clone(), OfferFilter::HistoricalOnly)), vec![2]);
    assert_eq!(ids(trim_offers(offers.clone(), OfferFilter::All)), vec![1, 2, 3]);
    assert_eq!(
        trim_offers(offers.clone(), OfferFilter::ActiveOnly).len() + trim_offers(offers.clone(), OfferFilter::HistoricalOnly).len(),
        offers.len()
    );
}

#[test]
fn options_follow_filter() {
    let options = trade_offers_options(OfferFilter::ActiveOnly, Some(active_offers_cutoff()));

    assert!(options.active_only);
    assert!(!options.historical_only);
    assert!(options.get_sent_offers && options.get_received_offers);
    assert!(!options.get_descriptions);
    assert_eq!(options.historical_cutoff, Some(4294967295000));
}

#[test]
fn steamid_needs_login() {
    assert_eq!(get_steamid(0), Err(Error::NotLoggedIn));
    assert_eq!(get_steamid(76561198000000000), Ok(76561198000000000));
    assert_eq!(
        check_start_polling(false, 76561198000000000),
        Err(Error::Parameter(ParameterError::MissingApiKeyOrAccessToken))
    );
    assert_eq!(check_start_polling(true, 0), Err(Error::NotLoggedIn));
}

#[test]
fn finds_confirmation_for_offer() {
    let confirmations = vec![
        Confirmation { id: 1, nonce: "a".to_string(), creator_id: 10, conf_type: ConfirmationType::Trade },
        Confirmation { id: 2, nonce: "b".to_string(), creator_id: 20, conf_type: ConfirmationType::Trade },
        Confirmation { id: 3, nonce: "c".to_string(), creator_id: 20, conf_type: ConfirmationType::Trade },
    ];

    assert_eq!(find_confirmation(confirmations.clone(), 20).unwrap().id, 2);
    assert!(matches!(find_confirmation(confirmations, 30), Err(Error::NoConfirmationForOffer(30))));
}
