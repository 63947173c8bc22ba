use std::sync::Arc;
use steam_tradeoffer_manager::api::{
    accept_offer_request, app_classinfo_map, asset_classes, cancel_offer_request, chunk_classes,
    classinfo_file_name, classinfo_query, cutoff_secs, decline_offer_request, get_api_url,
    get_classinfo_file_path, get_url, group_by_app, history_request_options, inventory_from_old_pages,
    inventory_from_pages, inventory_items, inventory_page_step, inventory_with_classinfos,
    map_raw_trade_offers_with_descriptions, merge_descriptions, offer_classes, offer_referer_url,
    prepare_send_offer, raw_trades_from, receipt_assets, receipt_classes, select_credential,
    start_after_secs, take_offers_page, trade_history_from, Credential, GetInventoryOldResponse,
    GetInventoryResponse, GetInventoryResponseIgnoreDescriptions, GetTradeHistoryResponseBody,
    GetTradeOffersResponseBody, PageStep,
};
use steam_tradeoffer_manager::enums::{ConfirmationMethod, TradeOfferState, TradeStatus};
use steam_tradeoffer_manager::error::{Error, MissingClassInfoError, ParameterError};
use steam_tradeoffer_manager::request::{GetTradeHistoryOptions, NewTradeOffer, NewTradeOfferItem};
use steam_tradeoffer_manager::response::{
    ClassInfo, ClassInfoAppMap, ClassInfoMap, EntryMap, RawAsset, RawAssetOld, RawReceiptAsset,
    RawTrade, RawTradeAsset, RawTradeOffer,
};

fn classinfo(name: &str, tradable: bool) -> Arc<ClassInfo> {
    Arc::new(ClassInfo {
        name: name.to_string(),
        market_name: name.to_string(),
        market_hash_name: name.to_string(),
        tradable,
        marketable: true,
        commodity: false,
    })
}

fn raw_asset(appid: u32, assetid: u64, classid: u64) -> RawAsset {
    RawAsset {
        appid,
        contextid: 2,
        assetid,
        amount: 1,
        missing: false,
        classid,
        instanceid: None,
    }
}

fn raw_offer(id: u64, state: TradeOfferState, created: i64, give: Vec<RawAsset>) -> RawTradeOffer {
    RawTradeOffer {
        tradeofferid: id,
        tradeid: None,
        accountid_other: 39734272,
        message: None,
        items_to_receive: Vec::new(),
        items_to_give: give,
        is_our_offer: false,
        from_real_time_trade: false,
        expiration_time: 0,
        time_created: created,
        time_updated: created,
        trade_offer_state: state,
        escrow_end_date: None,
        confirmation_method: ConfirmationMethod::Invalid,
    }
}

fn class_map(entries: Vec<((u32, u64, Option<u64>), Arc<ClassInfo>)>) -> ClassInfoMap {
    EntryMap::from_entries(entries)
}

#[test]
fn gets_offer_referer_url() {
    let url = offer_referer_url("new", 76561198000000000, Some("token")).unwrap();

    assert_eq!(url, "https://steamcommunity.com/tradeoffer/new?partner=39734272&token=token");

    let url = offer_referer_url("new", 76561198000000000, None).unwrap();

    assert_eq!(url, "https://steamcommunity.com/tradeoffer/new?partner=39734272");
}

#[test]
fn referer_url_of_countered_offer() {
    let url = offer_referer_url("5000", 76561198000000000, None).unwrap();

    assert_eq!(url, "https://steamcommunity.com/tradeoffer/5000?partner=39734272");
}

#[test]
fn builds_urls() {
    assert_eq!(get_url("/tradeoffer/new/send"), "https://steamcommunity.com/tradeoffer/new/send");
    assert_eq!(
        get_api_url("IEconService", "GetTradeOffers", 1),
        "https://api.steampowered.com/IEconService/GetTradeOffers/v1"
    );
}

#[test]
fn prefers_access_token() {
    let key = Some("key".to_string());
    let token = Some("token".to_string());

    assert_eq!(select_credential(&key, &token), Ok(Credential::AccessToken("token".to_string())));
    assert_eq!(select_credential(&key, &None), Ok(Credential::Key("key".to_string())));
    assert_eq!(select_credential(&None, &None), Err(ParameterError::MissingApiKeyOrAccessToken));
}

fn new_offer(items: usize) -> NewTradeOffer {
    let item = NewTradeOfferItem { appid: 440, contextid: 2, assetid: 1, amount: 1 };

    NewTradeOffer {
        partner: 76561198000000000,
        token: Some("token".to_string()),
        message: None,
        items_to_give: vec![item; items],
        items_to_receive: vec![item],
    }
}

#[test]
fn refuses_empty_offer() {
    let offer = NewTradeOffer {
        partner: 76561198000000000,
        token: None,
        message: None,
        items_to_give: Vec::new(),
        items_to_receive: Vec::new(),
    };

    assert!(matches!(
        prepare_send_offer(&offer, None, &Some("session".to_string())),
        Err(Error::Parameter(ParameterError::EmptyOffer))
    ));
}

#[test]
fn refuses_offer_without_session() {
    assert!(matches!(prepare_send_offer(&new_offer(1), None, &None), Err(Error::NotLoggedIn)));
}

#[test]
fn prepares_counter_offer() {
    let request = prepare_send_offer(&new_offer(2), Some(77), &Some("session".to_string())).unwrap();

    assert_eq!(request.version, 4);
    assert_eq!(request.sessionid, "session");
    assert_eq!(request.tradeofferid_countered, Some(77));
    assert_eq!(request.referer, "https://steamcommunity.com/tradeoffer/77?partner=39734272&token=token");
}

#[test]
fn prepares_offer_actions() {
    let session = Some("session".to_string());
    let accept = accept_offer_request(123, &session).unwrap();

    assert_eq!(accept.url, "https://steamcommunity.com/tradeoffer/123/accept");
    assert_eq!(accept.referer, "https://steamcommunity.com/tradeoffer/123");
    assert_eq!(
        decline_offer_request(123, &session).unwrap().url,
        "https://steamcommunity.com/tradeoffer/123/decline"
    );
    assert_eq!(
        cancel_offer_request(123, &session).unwrap().url,
        "https://steamcommunity.com/tradeoffer/123/cancel"
    );
    assert!(matches!(accept_offer_request(123, &None), Err(Error::NotLoggedIn)));
}

#[test]
fn pages_of_offers_follow_cursor() {
    let mut offers = Vec::new();
    let mut descriptions = Vec::new();
    let page = GetTradeOffersResponseBody {
        trade_offers_sent: vec![raw_offer(2, TradeOfferState::Active, 100, Vec::new())],
        trade_offers_received: vec![raw_offer(1, TradeOfferState::Active, 100, Vec::new())],
        descriptions: None,
        next_cursor: Some(10),
    };

    assert_eq!(take_offers_page(&mut offers, &mut descriptions, page, None), Some(10));
    // Received offers come first.
    assert_eq!(offers.iter().map(|o| o.tradeofferid).collect::<Vec<_>>(), vec![1, 2]);

    let last = GetTradeOffersResponseBody {
        trade_offers_sent: Vec::new(),
        trade_offers_received: vec![raw_offer(3, TradeOfferState::Active, 100, Vec::new())],
        descriptions: Some(class_map(Vec::new())),
        next_cursor: Some(0),
    };

    assert_eq!(take_offers_page(&mut offers, &mut descriptions, last, None), None);
    assert_eq!(offers.len(), 3);
    assert_eq!(descriptions.len(), 1);
}

#[test]
fn paging_stops_at_older_offer() {
    let mut offers = Vec::new();
    let mut descriptions = Vec::new();
    let page = GetTradeOffersResponseBody {
        trade_offers_sent: Vec::new(),
        trade_offers_received: vec![
            raw_offer(1, TradeOfferState::Active, 5000, Vec::new()),
            raw_offer(2, TradeOfferState::Accepted, 1000, Vec::new()),
        ],
        descriptions: None,
        next_cursor: Some(10),
    };

    assert_eq!(take_offers_page(&mut offers, &mut descriptions, page, Some(2000)), None);
    // Older offers on that page are still kept.
    assert_eq!(offers.len(), 2);
}

#[test]
fn later_descriptions_replace_earlier() {
    let class = (440, 1, None);
    let first = class_map(vec![(class, classinfo("Old", true))]);
    let second = class_map(vec![(class, classinfo("New", true))]);
    let merged = merge_descriptions(vec![first, second]).unwrap();

    assert_eq!(merged.get(&class).unwrap().name, "New");
    assert!(merge_descriptions(Vec::new()).is_none());
}

#[test]
fn cutoff_is_in_seconds() {
    assert_eq!(cutoff_secs(Some(1_500_999)), Some(1500));
    assert_eq!(cutoff_secs(None), None);
    assert_eq!(start_after_secs(Some(2_000_000)), Some(2000));
}

#[test]
fn collects_classes_once() {
    let offers = vec![
        raw_offer(1, TradeOfferState::Active, 0, vec![raw_asset(440, 1, 10), raw_asset(440, 2, 10)]),
        raw_offer(2, TradeOfferState::Active, 0, vec![raw_asset(730, 3, 10), raw_asset(440, 4, 11)]),
    ];
    let classes = offer_classes(&offers);

    assert_eq!(classes, vec![(440, 10, None), (730, 10, None), (440, 11, None)]);
    assert_eq!(asset_classes(&vec![raw_asset(440, 1, 5), raw_asset(440, 2, 5)]), vec![(440, 5, None)]);
}

#[test]
fn maps_offers_with_descriptions_leaving_out_incomplete() {
    let offers = vec![
        raw_offer(1, TradeOfferState::Active, 0, vec![raw_asset(440, 1, 10)]),
        raw_offer(2, TradeOfferState::Active, 0, vec![raw_asset(440, 2, 99)]),
        raw_offer(3, TradeOfferState::Active, 0, Vec::new()),
    ];
    let map = class_map(vec![((440, 10, None), classinfo("Key", true))]);
    let mapped = map_raw_trade_offers_with_descriptions(offers, map);

    assert_eq!(mapped.iter().map(|o| o.tradeofferid).collect::<Vec<_>>(), vec![1, 3]);
    assert_eq!(mapped[0].items_to_give[0].classinfo.name, "Key");
    assert_eq!(mapped[0].partner, 76561198000000000);
}

fn raw_trade(id: u64, classid: u64) -> RawTrade {
    RawTrade {
        tradeid: id,
        steamid_other: 76561198000000000,
        time_init: 0,
        status: TradeStatus::Complete,
        assets_given: vec![RawTradeAsset {
            appid: 440,
            contextid: 2,
            assetid: 1,
            amount: 1,
            classid,
            instanceid: None,
            new_contextid: Some(2),
            new_assetid: Some(9),
        }],
        assets_received: Vec::new(),
    }
}

#[test]
fn empty_trade_history_needs_no_descriptions() {
    let body = GetTradeHistoryResponseBody {
        more: false,
        total_trades: None,
        trades: Vec::new(),
        descriptions: None,
    };
    let trades = trade_history_from(body).unwrap();

    assert!(trades.trades.is_empty());
    assert_eq!(trades.total_trades, 0);
}

#[test]
fn trade_history_without_descriptions_is_unexpected() {
    let body = GetTradeHistoryResponseBody {
        more: true,
        total_trades: Some(3),
        trades: vec![raw_trade(1, 10)],
        descriptions: None,
    };

    match trade_history_from(body) {
        Err(Error::UnexpectedResponse(message)) => {
            assert_eq!(message, "No descriptions in response body.");
        },
        other => panic!("unexpected result {:?}", other),
    }
}

#[test]
fn trade_history_combines_descriptions() {
    let body = GetTradeHistoryResponseBody {
        more: true,
        total_trades: Some(3),
        trades: vec![raw_trade(1, 10)],
        descriptions: Some(class_map(vec![((440, 10, None), classinfo("Key", true))])),
    };
    let trades = trade_history_from(body).unwrap();

    assert_eq!(trades.total_trades, 3);
    assert!(trades.more);
    assert_eq!(trades.trades[0].assets_given[0].new_assetid, Some(9));

    let missing = GetTradeHistoryResponseBody {
        more: true,
        total_trades: Some(3),
        trades: vec![raw_trade(1, 11)],
        descriptions: Some(class_map(Vec::new())),
    };

    assert!(matches!(
        trade_history_from(missing),
        Err(Error::MissingClassInfo(MissingClassInfoError { appid: 440, classid: 11, instanceid: None }))
    ));
}

#[test]
fn raw_trades_default_total() {
    let body = GetTradeHistoryResponseBody {
        more: false,
        total_trades: None,
        trades: vec![raw_trade(1, 10)],
        descriptions: None,
    };
    let raw = raw_trades_from(body);

    assert_eq!(raw.total_trades, 0);
    assert_eq!(raw.trades.len(), 1);
}

#[test]
fn history_request_always_asks_total() {
    let options = GetTradeHistoryOptions {
        max_trades: 50,
        start_after_time: None,
        start_after_tradeid: Some(4),
        navigating_back: true,
        include_failed: false,
    };
    let request = history_request_options(&options, false);

    assert!(request.include_total);
    assert!(!request.get_descriptions);
    assert_eq!(request.max_trades, 50);
    assert_eq!(request.start_after_tradeid, Some(4));
}

#[test]
fn inventory_page_steps() {
    assert_eq!(inventory_page_step(false, true, None, Some(1)), Err(Error::ResponseUnsuccessful));
    assert_eq!(inventory_page_step(true, true, None, Some(5)), Ok(PageStep::Next(Some(5))));
    assert_eq!(inventory_page_step(true, false, Some(5), None), Ok(PageStep::Last));
    assert_eq!(
        inventory_page_step(true, true, Some(5), Some(5)),
        Err(Error::MalformedResponse("Pagination cursor is the same as the previous response."))
    );
}

#[test]
fn assembles_old_inventory() {
    let descriptions: ClassInfoAppMap = EntryMap::from_entries(vec![((10, None), classinfo("Key", false))]);
    let page = GetInventoryOldResponse {
        success: true,
        more_items: false,
        more_start: None,
        assets: vec![RawAssetOld { assetid: 7, amount: 1, classid: 10, instanceid: None }],
        descriptions,
    };
    let inventory = inventory_from_old_pages(&vec![page], 440, 2).unwrap();

    assert_eq!(inventory.len(), 1);
    assert_eq!(inventory[0].assetid, 7);
    assert_eq!(inventory[0].appid, 440);

    let missing = GetInventoryOldResponse {
        success: true,
        more_items: false,
        more_start: None,
        assets: vec![RawAssetOld { assetid: 8, amount: 1, classid: 11, instanceid: Some(3) }],
        descriptions: EntryMap::from_entries(Vec::new()),
    };

    assert!(matches!(
        inventory_from_old_pages(&vec![missing], 440, 2),
        Err(Error::MissingClassInfo(MissingClassInfoError { appid: 440, classid: 11, instanceid: Some(3) }))
    ));
}

#[test]
fn inventory_leaves_out_untradable_items() {
    let descriptions: ClassInfoAppMap = EntryMap::from_entries(vec![
        ((10, None), classinfo("Key", true)),
        ((11, None), classinfo("Medal", false)),
    ]);
    let page = GetInventoryResponse {
        success: true,
        more_items: false,
        assets: vec![raw_asset(440, 1, 10), raw_asset(440, 2, 11)],
        descriptions,
        last_assetid: None,
    };
    let pages = vec![page];

    assert_eq!(inventory_from_pages(&pages, 440, 2, true).unwrap().len(), 1);
    assert_eq!(inventory_from_pages(&pages, 440, 2, false).unwrap().len(), 2);
}

#[test]
fn inventory_with_classinfos_uses_given_app() {
    let pages = vec![
        GetInventoryResponseIgnoreDescriptions {
            success: true,
            more_items: true,
            assets: vec![raw_asset(440, 1, 10)],
            last_assetid: Some(1),
        },
        GetInventoryResponseIgnoreDescriptions {
            success: true,
            more_items: false,
            assets: vec![raw_asset(440, 2, 11)],
            last_assetid: None,
        },
    ];
    let items = inventory_items(pages);

    assert_eq!(items.iter().map(|a| a.assetid).collect::<Vec<_>>(), vec![1, 2]);

    let map = class_map(vec![((440, 10, None), classinfo("Key", true)), ((440, 11, None), classinfo("Medal", false))]);

    assert_eq!(inventory_with_classinfos(&items, &map, 440, 2, true).unwrap().len(), 1);
    assert!(matches!(
        inventory_with_classinfos(&items, &map, 730, 2, false),
        Err(Error::MissingClassInfo(MissingClassInfoError { appid: 730, classid: 10, instanceid: None }))
    ));
}

#[test]
fn groups_classes_by_app() {
    let classes = vec![(440, 1, None), (730, 2, Some(3)), (440, 4, None)];
    let groups = group_by_app(&classes);

    assert_eq!(groups, vec![(440, vec![(1, None), (4, None)]), (730, vec![(2, Some(3))])]);
}

#[test]
fn chunks_classes() {
    let classes: Vec<(u64, Option<u64>)> = (0..250).map(|i| (i, None)).collect();
    let chunks = chunk_classes(&classes, 100);

    assert_eq!(chunks.iter().map(|c| c.len()).collect::<Vec<_>>(), vec![100, 100, 50]);
    assert_eq!(chunks.concat(), classes);
    assert_eq!(chunks[2][0], (200, None));
    assert!(chunk_classes(&Vec::new(), 100).is_empty());
}

#[test]
fn builds_classinfo_query() {
    let query = classinfo_query(
        &Credential::Key("k".to_string()),
        440,
        "en",
        &vec![(101785959, Some(11040578)), (5, None)],
    );
    let expected: Vec<(String, String)> = vec![
        ("key", "k"),
        ("appid", "440"),
        ("language", "en"),
        ("class_count", "2"),
        ("classid0", "101785959"),
        ("instanceid0", "11040578"),
        ("classid1", "5"),
    ]
    .into_iter()
    .map(|(a, b)| (a.to_string(), b.to_string()))
    .collect();

    assert_eq!(query, expected);
}

#[test]
fn keeps_classinfos_that_were_read() {
    let map = app_classinfo_map(440, vec![((1, None), Some(classinfo("Key", true))), ((2, None), None)]);

    assert!(map.get(&(440, 1, None)).is_some());
    assert!(map.get(&(440, 2, None)).is_none());
}

#[test]
fn combines_receipt() {
    let assets = vec![
        RawReceiptAsset { appid: 440, contextid: 2, assetid: 1, amount: 1, classid: 10, instanceid: None },
        RawReceiptAsset { appid: 440, contextid: 2, assetid: 2, amount: 1, classid: 10, instanceid: None },
    ];

    assert_eq!(receipt_classes(&assets), vec![(440, 10, None)]);

    let map = class_map(vec![((440, 10, None), classinfo("Key", true))]);

    assert_eq!(receipt_assets(&assets, &map).unwrap().len(), 2);
    assert_eq!(
        receipt_assets(&assets, &class_map(Vec::new())).unwrap_err(),
        MissingClassInfoError { appid: 440, classid: 10, instanceid: None }
    );
}

#[test]
fn names_classinfo_files() {
    assert_eq!(classinfo_file_name((440, 101785959, Some(11040578))), "440_101785959_11040578.json");
    assert_eq!(classinfo_file_name((440, 5, None)), "440_5_0.json");

    let path = get_classinfo_file_path((440, 5, None), "data");

    assert!(path == "data/440_5_0.json" || path == "data\\440_5_0.json");
    assert_eq!(get_classinfo_file_path((440, 101785959, None), "/data/"), "/data/440_101785959_0.json");
    assert_eq!(get_classinfo_file_path((440, 5, None), ""), "440_5_0.json");
    let path = get_classinfo_file_path((440, 101785959, Some(11040578)), "/data");
    assert!(
        path == "/data/440_101785959_11040578.json" || path == "/data\\440_101785959_11040578.json"
    );
}
