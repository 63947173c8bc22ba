use std::sync::Arc;
use steam_tradeoffer_manager::enums::{ConfirmationMethod, ConfirmationType, GetUserDetailsMethod, Language, TradeOfferState};
use steam_tradeoffer_manager::error::{MissingClassInfoError, TryIntoNewAssetError};
use steam_tradeoffer_manager::polling::{PollData, PollOptions};
use steam_tradeoffer_manager::response::{
    from_raw_receipt_asset, ClassInfo, EntryMap, RawAsset, RawReceiptAsset, RawTradeAsset, RawTradeOffer,
};

fn classinfo() -> Arc<ClassInfo> {
    Arc::new(ClassInfo {
        name: "Key".to_string(),
        market_name: "Key".to_string(),
        market_hash_name: "Mann Co. Supply Crate Key".to_string(),
        tradable: true,
        marketable: true,
        commodity: true,
    })
}

#[test]
fn combines_receipt_asset() {
    let asset = RawReceiptAsset { appid: 440, contextid: 2, assetid: 5, amount: 1, classid: 101785959, instanceid: Some(11040578) };
    let map = EntryMap::from_entries(vec![((440, 101785959, Some(11040578)), classinfo())]);
    let combined = from_raw_receipt_asset(asset, &map).unwrap();

    assert_eq!(combined.assetid, 5);
    assert!(!combined.missing);
    assert_eq!(combined.classinfo.market_hash_name, "Mann Co. Supply Crate Key");
    assert_eq!(
        from_raw_receipt_asset(asset, &EntryMap::from_entries(Vec::new())).unwrap_err(),
        MissingClassInfoError { appid: 440, classid: 101785959, instanceid: Some(11040578) }
    );
    assert_eq!(map.num_entries(), 1);
}

#[test]
fn trade_asset_becomes_new_asset() {
    let asset = RawTradeAsset {
        appid: 440,
        contextid: 2,
        assetid: 1,
        amount: 1,
        classid: 7,
        instanceid: None,
        new_contextid: Some(2),
        new_assetid: Some(9),
    };
    let new_asset = asset.try_into_new_asset().unwrap();

    assert_eq!(new_asset.assetid, 9);
    assert_eq!(RawAsset::from(asset).assetid, 1);

    let pending = RawTradeAsset { new_assetid: None, ..asset };

    assert_eq!(
        pending.try_into_new_asset(),
        Err(TryIntoNewAssetError { appid: 440, contextid: 2, assetid: 1, amount: 1 })
    );
}

#[test]
fn offer_state_checks() {
    let offer = RawTradeOffer {
        tradeofferid: 1,
        tradeid: None,
        accountid_other: 1,
        message: None,
        items_to_receive: Vec::new(),
        items_to_give: Vec::new(),
        is_our_offer: false,
        from_real_time_trade: false,
        expiration_time: 0,
        time_created: 0,
        time_updated: 0,
        trade_offer_state: TradeOfferState::InEscrow,
        escrow_end_date: None,
        confirmation_method: ConfirmationMethod::MobileApp,
    };

    assert!(offer.is_glitched());
    assert!(offer.state_is_changeable());

    let mut offer = offer;
    offer.trade_offer_state = TradeOfferState::Active;
    assert!(offer.state_is_changeable());
    offer.trade_offer_state = TradeOfferState::CreatedNeedsConfirmation;
    assert!(!offer.state_is_changeable());
    offer.trade_offer_state = TradeOfferState::Accepted;
    assert!(!offer.state_is_changeable());
}

#[test]
fn enums_convert() {
    assert_eq!(ConfirmationType::from_number(2), ConfirmationType::Trade);
    assert_eq!(ConfirmationType::from(10), ConfirmationType::Unknown(10));
    assert_eq!(Language::English.to_display_string(), "en");
    assert_eq!(GetUserDetailsMethod::from_tradeofferid(12).pathname(), "12");
    assert_eq!(GetUserDetailsMethod::from_token(Some("t".to_string())).token(), Some("t"));
    assert_eq!(GetUserDetailsMethod::from_token(None).pathname(), "new");
}

#[test]
fn poll_data_clears_offers() {
    let mut data = PollData::new();

    data.state_map.insert(1, TradeOfferState::Active);
    data.state_map.insert(2, TradeOfferState::Active);
    data.clear_offers(&[1]);
    assert!(data.state_map.get(&1).is_none());
    assert!(data.state_map.get(&2).is_some());
    assert!(data.take_changed());

    // clearing an offer that is not in the map changes nothing
    data.clear_offers(&[7]);
    assert!(data.state_map.get(&2).is_some());
    assert!(!data.take_changed());
    data.clear_offers(&[]);
    assert!(!data.take_changed());

    let options = PollOptions::default_with_cancel_duration(60_000);

    assert_eq!(options.cancel_duration, Some(60_000));
    assert_eq!(options.poll_interval, 30_000);
}

#[test]
fn entry_map_replaces_in_place() {
    let mut map: EntryMap<(u32, u64, Option<u64>), u32> = EntryMap::new();

    map.insert((440, 1, None), 1);
    map.insert((440, 2, None), 2);
    map.insert((440, 1, None), 3);
    assert_eq!(map.num_entries(), 2);
    assert_eq!(map.get(&(440, 1, None)), Some(&3));
    assert_eq!(map.get(&(440, 2, None)), Some(&2));
    assert_eq!(map.clone().into_entries(), vec![((440, 1, None), 3), ((440, 2, None), 2)]);

    let mut other = EntryMap::from_entries(vec![((440, 2, None), 20), ((440, 5, None), 5)]);

    other.append(map);
    assert_eq!(other.num_entries(), 4);
    // the appended entries override the earlier ones
    assert_eq!(other.get(&(440, 2, None)), Some(&2));
    assert_eq!(other.get(&(440, 5, None)), Some(&5));
    assert_eq!(other.get(&(440, 9, None)), None);
}
