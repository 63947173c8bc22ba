use std::sync::Arc;
use steam_tradeoffer_manager::classinfo_cache::ClassInfoCache;
use steam_tradeoffer_manager::response::{ClassInfo, EntryMap};

fn classinfo(name: &str) -> Arc<ClassInfo> {
    Arc::new(ClassInfo {
        name: name.to_string(),
        market_name: name.to_string(),
        market_hash_name: name.to_string(),
        tradable: true,
        marketable: true,
        commodity: false,
    })
}

#[test]
fn finds_inserted_classinfos() {
    let mut cache = ClassInfoCache::new();

    cache.insert_map(EntryMap::from_entries(vec![((440, 1, None), classinfo("A")), ((440, 2, Some(3)), classinfo("B"))]));

    let (map, misses) = cache.get_map(&[(440, 1, None), (440, 5, None), (440, 2, Some(3))]);

    assert_eq!(map.get(&(440, 1, None)).unwrap().name, "A");
    assert_eq!(map.get(&(440, 2, Some(3))).unwrap().name, "B");
    assert_eq!(misses, vec![(440, 5, None)]);
    assert_eq!(cache.get_classinfo(&(440, 1, None)).unwrap().name, "A");
}

#[test]
fn later_insert_replaces_earlier() {
    let mut cache = ClassInfoCache::with_capacity(0);

    cache.insert_map(EntryMap::from_entries(vec![((440, 1, None), classinfo("A")), ((440, 1, None), classinfo("B"))]));
    assert_eq!(cache.get_classinfo(&(440, 1, None)).unwrap().name, "B");
}

#[test]
fn full_cache_evicts_and_keeps_last_inserted() {
    let mut cache = ClassInfoCache::with_capacity(2);

    cache.insert_map(EntryMap::from_entries(vec![((440, 1, None), classinfo("A")), ((440, 2, None), classinfo("B"))]));
    // Use the first class so that the second is the least frequently used.
    assert!(cache.get_classinfo(&(440, 1, None)).is_some());
    cache.insert_map(EntryMap::from_entries(vec![((440, 3, None), classinfo("C"))]));

    let (map, misses) = cache.get_map(&[(440, 1, None), (440, 2, None), (440, 3, None)]);

    assert_eq!(map.get(&(440, 3, None)).unwrap().name, "C");
    assert_eq!(misses, vec![(440, 2, None)]);
}
