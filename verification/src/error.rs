//! Error types.
use vstd::prelude::*;
use crate::enums::TradeOfferState;
use crate::text::{
    lemma_last_index_of,
    chars_of, last_index_of, parse_u32_range, parse_u32_spec, rfind_char, trim, trim_bounds,
};
use crate::types::{AppId, ClassId, InstanceId, ContextId, AssetId, Amount, TradeOfferId};

verus! {

/// An error received from a response when sending or acting on trade offers.
#[derive(Debug, PartialEq, Eq, Clone)]
pub enum TradeOfferError {
    /// An unknown error occurred. The contained string will contain additional information.
    Unknown(String),
    /// An unknown error occurred with a numeric EResult code.
    UnknownEResult(u32),
    /// # Code 2
    /// Returned when a more specific error code couldn't be determined.
    Fail,
    /// # Code 11
    /// This trade offer is in an invalid state, and cannot be acted upon. Usually
    /// you'll need to send a new trade offer.
    InvalidState,
    /// # Code 15
    /// You can't send or accept this trade offer because either you can't trade with the
    /// other user, or one of the parties in this trade can't send or receive one of the
    /// items in the trade.
    AccessDenied,
    /// # Code 16
    /// The Steam Community web server did not receive a timely reply from the trade offers
    /// server while sending/accepting this trade offer. It is possible (and not unlikely)
    /// that the operation actually succeeded.
    Timeout,
    /// # Code 20
    /// As the name suggests, the trade offers service is currently unavailable.
    ServiceUnavailable,
    /// # Code 25
    /// Sending this trade offer would put you over your limit. You are limited to 5 Active offers
    /// (including those requiring confirmation, but excluding those in escrow) to a single
    /// recipient, or 30 Active offers total. If you are accepting a trade offer, then your
    /// inventory for a particular game may be full.
    LimitExceeded,
    /// # Code 26
    /// This response code suggests that one or more of the items in this trade offer does not
    /// exist in the inventory from which it was requested.
    Revoked,
    /// # Code 28
    /// When accepting a trade offer, this response code suggests that it has already been
    /// accepted.
    AlreadyRedeemed,
    /// We cannot trade with partner because they have a trade ban.
    TradeBan,
    /// We have logged in from a new device and temporarily cannot trade.
    NewDevice,
    /// Partner cannot trade for some reason.
    PartnerCannotTrade,
}

/// The error that the EResult `code` stands for.
pub open spec fn from_code_spec(code: u32) -> TradeOfferError {
    if code == 2 {
        TradeOfferError::Fail
    } else if code == 11 {
        TradeOfferError::InvalidState
    } else if code == 15 {
        TradeOfferError::AccessDenied
    } else if code == 16 {
        TradeOfferError::Timeout
    } else if code == 20 {
        TradeOfferError::ServiceUnavailable
    } else if code == 25 {
        TradeOfferError::LimitExceeded
    } else if code == 26 {
        TradeOfferError::Revoked
    } else if code == 28 {
        TradeOfferError::AlreadyRedeemed
    } else {
        TradeOfferError::UnknownEResult(code)
    }
}

/// The EResult code of `e`, if it has one.
pub open spec fn code_spec(e: TradeOfferError) -> Option<u32> {
    match e {
        TradeOfferError::Fail => Some(2),
        TradeOfferError::InvalidState => Some(11),
        TradeOfferError::AccessDenied => Some(15),
        TradeOfferError::Timeout => Some(16),
        TradeOfferError::ServiceUnavailable => Some(20),
        TradeOfferError::LimitExceeded => Some(25),
        TradeOfferError::Revoked => Some(26),
        TradeOfferError::AlreadyRedeemed => Some(28),
        TradeOfferError::UnknownEResult(code) => Some(code),
        _ => None,
    }
}

/// The last piece of `t` when split at spaces.
pub open spec fn last_piece(t: Seq<char>) -> Seq<char> {
    match last_index_of(t, ' ') {
        Some(i) => t.subrange(i + 1, t.len() as int),
        None => t,
    }
}

/// The code in parentheses that ends `message`, as in
/// "There was an error accepting this trade offer. Please try again later. (28)".
pub open spec fn message_code(message: Seq<char>) -> Option<u32> {
    let piece = last_piece(trim(message));
    if piece.len() >= 2 && piece[0] == '(' && piece.last() == ')' {
        parse_u32_spec(piece.subrange(1, piece.len() - 1))
    } else {
        None
    }
}

impl TradeOfferError {
    /// Transforms the code number into the corresponding error.
    pub fn from_code(code: u32) -> (res: Self)
        ensures
            res == from_code_spec(code),
    {
        if code == 2 {
            TradeOfferError::Fail
        } else if code == 11 {
            TradeOfferError::InvalidState
        } else if code == 15 {
            TradeOfferError::AccessDenied
        } else if code == 16 {
            TradeOfferError::Timeout
        } else if code == 20 {
            TradeOfferError::ServiceUnavailable
        } else if code == 25 {
            TradeOfferError::LimitExceeded
        } else if code == 26 {
            TradeOfferError::Revoked
        } else if code == 28 {
            TradeOfferError::AlreadyRedeemed
        } else {
            TradeOfferError::UnknownEResult(code)
        }
    }

    /// Gets the code number for this error.
    pub fn code(&self) -> (res: Option<u32>)
        ensures
            res == code_spec(*self),
    {
        match self {
            TradeOfferError::Fail => Some(2),
            TradeOfferError::InvalidState => Some(11),
            TradeOfferError::AccessDenied => Some(15),
            TradeOfferError::Timeout => Some(16),
            TradeOfferError::ServiceUnavailable => Some(20),
            TradeOfferError::LimitExceeded => Some(25),
            TradeOfferError::Revoked => Some(26),
            TradeOfferError::AlreadyRedeemed => Some(28),
            TradeOfferError::UnknownEResult(code) => Some(*code),
            _ => None,
        }
    }

    /// Reads the error from a message. This checks the last piece of the message for a number
    /// in parentheses, such as "There was an error accepting this trade offer. Please try again
    /// later. (28)"; without one the error is `Unknown` with the whole message.
    pub fn from_message(message: &str) -> (res: Self)
        ensures
            is_message_error(message@, res),
    {
        let chars = chars_of(message);
        let (start, end) = trim_bounds(chars.as_slice());
        let ghost t = trim(message@);
        let mut piece_start = start;
        // The last space of the trimmed message, if any.
        let mut k = end;
        while k > start && chars[k - 1] != ' '
            invariant
                start <= k <= end <= chars@.len(),
                forall|j: int| k <= j < end ==> chars@[j] != ' ',
            decreases k,
        {
            k = k - 1;
        }
        proof {
            assert(t =~= chars@.subrange(start as int, end as int));
            assert forall|j: int| (k - start) <= j < t.len() implies t[j] != ' ' by {
                assert(t[j] == chars@[j + start]);
            }
            if k > start {
                assert(t[k - start - 1] == chars@[k - 1]);
            }
            lemma_last_space(t, (k - start) as int, k > start && chars@[k - 1] == ' ');
        }
        if k > start && chars[k - 1] == ' ' {
            piece_start = k;
        }
        let ghost piece = last_piece(t);
        assert(piece =~= chars@.subrange(piece_start as int, end as int));
        if end - piece_start >= 2 && chars[piece_start] == '(' && chars[end - 1] == ')' {
            match parse_u32_range(chars.as_slice(), piece_start + 1, end - 1) {
                Some(code) => {
                    assert(piece.subrange(1, piece.len() - 1) =~= chars@.subrange(
                        piece_start + 1,
                        end - 1,
                    ));
                    return TradeOfferError::from_code(code);
                },
                None => {
                    assert(piece.subrange(1, piece.len() - 1) =~= chars@.subrange(
                        piece_start + 1,
                        end - 1,
                    ));
                },
            }
        }
        TradeOfferError::Unknown(message.to_string())
    }
}

/// Whether `r` is the error that `message` reads as.
pub open spec fn is_message_error(message: Seq<char>, r: TradeOfferError) -> bool {
    match message_code(message) {
        Some(code) => r == from_code_spec(code),
        None => r is Unknown && r->Unknown_0@ == message,
    }
}

impl<'a> From<&'a str> for TradeOfferError {
    /// Reads the error from a message, as `TradeOfferError::from_message` does.
    fn from(message: &'a str) -> (res: Self)
        ensures
            is_message_error(message@, res),
    {
        TradeOfferError::from_message(message)
    }
}

impl<'a> vstd::std_specs::convert::FromSpecImpl<&'a str> for TradeOfferError {
    /// `from` states its result itself, with `is_message_error`; a `String` cannot be built from
    /// characters in a spec function, so no spec function of the result is given here.
    open spec fn obeys_from_spec() -> bool {
        false
    }

    open spec fn from_spec(message: &'a str) -> TradeOfferError {
        choose|r: TradeOfferError| #[trigger] is_message_error(message@, r)
    }
}


/// Relates the scan for the last space to [`last_piece`].
proof fn lemma_last_space(t: Seq<char>, k: int, found: bool)
    requires
        0 <= k <= t.len(),
        forall|j: int| k <= j < t.len() ==> t[j] != ' ',
        found ==> k > 0 && t[k - 1] == ' ',
        !found ==> k == 0,
    ensures
        last_piece(t) == t.subrange(k, t.len() as int),
    decreases t.len(),
{
    if t.len() > 0 && t.last() != ' ' {
        assert forall|j: int| k <= j < t.drop_last().len() implies t.drop_last()[j] != ' ' by {
            assert(t.drop_last()[j] == t[j]);
        }
        if found {
            assert(k - 1 < t.len() - 1) by {
                if k == t.len() {
                    assert(t.last() == t[k - 1]);
                }
            }
            assert(t.drop_last()[k - 1] == ' ');
        }
        lemma_last_space(t.drop_last(), if found { k } else { 0 }, found);
        match last_index_of(t.drop_last(), ' ') {
            Some(i) => {
                let d = t.drop_last();
                let k2 = if found { k } else { 0 };
                lemma_last_index_of(d, ' ');
                if i + 1 > k2 {
                    assert(d[i] != ' ');
                }
                if i + 1 < k2 {
                    assert(d[k2 - 1] == ' ');
                }
                assert(i + 1 == k2);
                assert(t.subrange(i + 1, t.len() as int) =~= t.subrange(k, t.len() as int));
            },
            None => {
                assert(t =~= t.subrange(0, t.len() as int));
            },
        }
    } else if t.len() == 0 {
        assert(t =~= t.subrange(0, 0));
    } else {
        assert(k == t.len());
        assert(t.subrange(k, t.len() as int) =~= Seq::<char>::empty());
    }
}

/// Converting a code into an error and reading the error's code gives the code back, for every
/// code.
pub proof fn law_code_round_trip(code: u32)
    ensures
        code_spec(from_code_spec(code)) == Some(code),
{
}

/// Reading an error's code and converting that code back gives the same error, for every error
/// that has a code other than an `UnknownEResult` whose code names a known error.
pub proof fn law_error_round_trip(e: TradeOfferError)
    requires
        code_spec(e) is Some,
        e is UnknownEResult ==> from_code_spec(e->UnknownEResult_0) is UnknownEResult,
    ensures
        from_code_spec(code_spec(e)->0) == e,
{
}

/// Details of the missing classinfo.
#[derive(Debug, Clone, Copy, PartialEq, Eq)]
pub struct MissingClassInfoError {
    /// The app ID of the missing classinfo.
    pub appid: AppId,
    /// The class ID of the missing classinfo.
    pub classid: ClassId,
    /// The instance ID of the missing classinfo.
    pub instanceid: InstanceId,
}

/// An asset for an item into a trade failed to be converted into its acquired item.
#[derive(Debug, Clone, Copy, PartialEq, Eq)]
pub struct TryIntoNewAssetError {
    /// App ID.
    pub appid: AppId,
    /// Context ID.
    pub contextid: ContextId,
    /// Asset ID.
    pub assetid: AssetId,
    /// Amount.
    pub amount: Amount,
}

/// An error occurred when setting cookies.
#[derive(Debug, Clone, PartialEq, Eq)]
pub enum SetCookiesError {
    /// The Steam login cookie is missing from the cookies.
    MissingSteamLogin,
    /// The access token was not found in the steamLoginSecure cookie.
    MissingAccessToken,
    /// The Steam ID in the steamLoginSecure cookie is made of decimal digits that are not all
    /// ASCII digits, so it could not be read as a number.
    InvalidSteamID,
}

/// Any number of issues with a provided parameter.
#[derive(Debug, Clone, PartialEq, Eq)]
pub enum ParameterError {
    /// An API key or JWT access token was expected but none was provided.
    MissingApiKeyOrAccessToken,
    /// No identity secret.
    NoIdentitySecret,
    /// Offer is missing trade ID.
    MissingTradeId,
    /// Offer is empty.
    EmptyOffer,
    /// Offer is not in accepted state.
    NotInAcceptedState(TradeOfferState),
    /// Cannot accept an offer that is not active.
    CannotAcceptOfferThatIsNotActive(TradeOfferState),
    /// Cannot accept an offer that we created.
    CannotAcceptOfferWeCreated,
    /// Cannot cancel an offer we did not create.
    CannotCancelOfferWeDidNotCreate,
    /// Cannot decline an offer we created.
    CannotDeclineOfferWeCreated,
    /// A URL could not be built from its parts.
    UrlParse,
}

/// An error occurred when parsing HTML.
#[derive(Debug, Clone, PartialEq, Eq)]
pub enum ParseHtmlError {
    /// The HTML is not what is expected.
    Malformed(&'static str),
    /// There was an error in the response.
    Response(String),
    /// A selector could not be parsed.
    ParseSelector,
}

/// The errors that the logic of this crate produces when making requests.
#[derive(Debug, Clone, PartialEq, Eq)]
pub enum Error {
    /// An input parameter is missing or invalid.
    Parameter(ParameterError),
    /// An unexpected response containing a message was received.
    UnexpectedResponse(String),
    /// A response with an HTTP code of 400 to 599, with that code.
    StatusCode(u16),
    /// You are not logged in.
    NotLoggedIn,
    /// A response returned a JSON response where `success` is `false`.
    ResponseUnsuccessful,
    /// An HTML document could not be parsed from the response.
    ParseHtml(ParseHtmlError),
    /// An error was encountered when sending or acting on trade offers.
    TradeOffer(TradeOfferError),
    /// A classinfo is missing.
    MissingClassInfo(MissingClassInfoError),
    /// This trade offer has no confirmations.
    NoConfirmationForOffer(TradeOfferId),
    /// The response is not expected. Check the contained message for more details.
    MalformedResponse(&'static str),
    /// The response is not expected, with the raw body.
    MalformedResponseWithBody(&'static str, String),
    /// A response from Steam returned an EResult code, with the raw body.
    SteamEResult(u32, String),
}

} // verus!
