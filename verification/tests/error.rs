use steam_tradeoffer_manager::error::TradeOfferError;

#[test]
fn parses_trade_offer_error() {
    let message = "There was an error accepting this trade offer. \
Please try again later. (28)";
    let error = TradeOfferError::from(message);

    assert_eq!(error, TradeOfferError::AlreadyRedeemed);
}

#[test]
fn codes_round_trip() {
    assert_eq!(TradeOfferError::from_code(28).code(), Some(28));
    assert_eq!(TradeOfferError::from_code(999).code(), Some(999));
    assert_eq!(TradeOfferError::from_code(TradeOfferError::AlreadyRedeemed.code().unwrap()), TradeOfferError::AlreadyRedeemed);
}

#[test]
fn message_without_code_is_unknown() {
    assert_eq!(
        TradeOfferError::from("Something happened"),
        TradeOfferError::Unknown("Something happened".to_string())
    );
    assert_eq!(TradeOfferError::from("Timed out (16)"), TradeOfferError::Timeout);
}
