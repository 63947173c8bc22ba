use std::sync::Arc;
use steam_tradeoffer_manager::item_collection::{Currencies, ItemCollection};
use steam_tradeoffer_manager::response::{Asset, ClassInfo};

fn asset(appid: u32, assetid: u64, name: &str) -> Asset {
    let classinfo = Arc::new(ClassInfo {
        name: name.to_string(),
        market_name: name.to_string(),
        market_hash_name: name.to_string(),
        tradable: true,
        marketable: true,
        commodity: true,
    });

    Asset {
        appid,
        contextid: 2,
        assetid,
        amount: 1,
        missing: false,
        classinfo: Arc::clone(&classinfo),
    }
}

fn create_asset_refined_metal(assetid: u64) -> Asset {
    asset(440, assetid, "Refined Metal")
}

#[test]
fn converts_into_currencies() {
    let items: Vec<_> = (0..10)
        .map(|i| create_asset_refined_metal(i as u64))
        .collect();
    let currencies: Currencies = ItemCollection::from(items).count_currencies();

    assert_eq!(currencies, Currencies { keys: 0, metal: 10 * tf2_price::ONE_REF });
}

#[test]
fn iterates_items() {
    let items: Vec<_> = (0..3)
        .map(|i| create_asset_refined_metal(i as u64))
        .collect();
    let assetids = ItemCollection::from(items)
        .into_vec()
        .iter()
        .map(|asset| asset.assetid)
        .collect::<Vec<u64>>();

    assert_eq!(assetids, vec![0, 1, 2]);
}

#[test]
fn filters_app() {
    let items: Vec<_> = (0..3)
        .map(|i| create_asset_refined_metal(i as u64))
        .collect();
    let items = ItemCollection::from(items).filter_app(440);

    assert_eq!(items.len(), 3);
}

#[test]
fn counts_keys_and_metal_of_tf2_only() {
    let items = vec![
        asset(440, 1, "Mann Co. Supply Crate Key"),
        asset(440, 2, "Reclaimed Metal"),
        asset(440, 3, "Scrap Metal"),
        asset(730, 4, "Mann Co. Supply Crate Key"),
        asset(440, 5, "Team Captain"),
    ];
    let currencies = ItemCollection::from(items).count_currencies();

    assert_eq!(currencies, Currencies { keys: 1, metal: 8 });
}

#[test]
fn counts_add_up_when_appended() {
    let mut a = ItemCollection::from(vec![asset(440, 1, "Refined Metal")]);
    let mut b = ItemCollection::from(vec![asset(440, 2, "Mann Co. Supply Crate Key")]);
    let sum_keys = a.count_currencies().keys + b.count_currencies().keys;
    let sum_metal = a.count_currencies().metal + b.count_currencies().metal;

    a.append(&mut b);
    assert_eq!(b.len(), 0);
    assert_eq!(a.count_currencies(), Currencies { keys: sum_keys, metal: sum_metal });
}

#[test]
fn removes_set_and_updates() {
    let mut items = ItemCollection::from(vec![
        asset(440, 1, "A"),
        asset(440, 2, "B"),
        asset(730, 1, "C"),
    ]);

    items.remove_set(&vec![(440, 1), (730, 2)]);
    assert_eq!(items.clone().into_vec().iter().map(|a| a.assetid).collect::<Vec<_>>(), vec![2, 1]);

    let mut other = ItemCollection::new();

    other.push(asset(440, 9, "D"));
    items.update(other);
    assert_eq!(items.len(), 1);
    assert_eq!(items.filter_app(730).len(), 0);
}

#[test]
fn filtering_app_twice_is_filtering_once() {
    let items = ItemCollection::from(vec![asset(440, 1, "A"), asset(730, 2, "B"), asset(440, 3, "C")]);
    let once = items.filter_app(440);
    let twice = once.filter_app(440);

    assert_eq!(once.len(), 2);
    assert_eq!(twice.len(), once.len());
}
