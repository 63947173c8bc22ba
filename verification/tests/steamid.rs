use steam_tradeoffer_manager::api::offer_referer_url;
use steam_tradeoffer_manager::time::{time_from_secs, timestamp};

#[test]
fn account_id_of_partner() {
    // The account ID of 76561198000000000 is its low 32 bits.
    let url = offer_referer_url("new", 76561198000000000, None).unwrap();

    assert!(url.ends_with("partner=39734272"));
}

#[test]
fn timestamp_round_trip() {
    assert_eq!(timestamp(time_from_secs(1_700_000_000)), 1_700_000_000);
    assert_eq!(timestamp(-1), -1);
    assert_eq!(timestamp(1_999), 1);
}
