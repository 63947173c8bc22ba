//! The decisions of the underlying API: which URL and which credentials a request uses, what
//! a request is refused for before it is sent, how pages of results are followed, and how the
//! pieces of responses are put together.
use vstd::prelude::*;
use std::sync::Arc;
use crate::error::{Error, ParameterError, MissingClassInfoError};
use crate::request::NewTradeOffer;
use crate::steamid::{account_id, account_id_spec};
use crate::text::{chars_of, decimal, decimal_string, push_str, string_of};
use crate::response::{
    class_of, combine_offer_ok, combine_trade_ok, entries_map, first_missing, trade_raw, Asset,
    ClassInfo, ClassInfoAppMap, ClassInfoMap, EntryMap, MapKey, RawAsset, RawAssetOld, RawTrade,
    RawTradeAsset, RawTradeOffer, RawTrades, Trade, TradeOffer, Trades, share, RawReceiptAsset,
    combine_ok, collect_assets,
};
use crate::request::{GetTradeHistoryOptions, GetTradeHistoryRequestOptions};
use crate::time::{timestamp, timestamp_spec, valid_time};
use crate::types::{
    AppId, ContextId, AssetId, Amount, ClassId, InstanceId, TradeOfferId, ServerTime,
    ClassInfoClass, ClassInfoAppClass,
};

verus! {

// ---------------------------------------------------------------------------------------------
// URLs.
// ---------------------------------------------------------------------------------------------

/// The address of the community site, to which a path is appended.
pub open spec fn community_base() -> Seq<char> {
    "https://steamcommunity.com"@
}

/// The address of the Web API site.
pub open spec fn web_api_base() -> Seq<char> {
    "https://api.steampowered.com"@
}

/// The community URL for `pathname`.
pub open spec fn community_url(pathname: Seq<char>) -> Seq<char> {
    community_base() + pathname
}

/// The Web API URL of `method` of `interface` in `version`.
pub open spec fn api_url(interface: Seq<char>, method: Seq<char>, version: nat) -> Seq<char> {
    web_api_base() + "/"@ + interface + "/"@ + method + "/v"@ + decimal(version)
}

/// Builds the community URL for `pathname`.
pub fn get_url(pathname: &str) -> (res: String)
    ensures
        res@ == community_url(pathname@),
{
    let mut v: Vec<char> = Vec::new();
    push_str(&mut v, "https://steamcommunity.com");
    push_str(&mut v, pathname);
    string_of(v.as_slice())
}

/// Builds the Web API URL of `method` of `interface` in `version`.
pub fn get_api_url(interface: &str, method: &str, version: u64) -> (res: String)
    ensures
        res@ == api_url(interface@, method@, version as nat),
{
    let mut v: Vec<char> = Vec::new();
    push_str(&mut v, "https://api.steampowered.com");
    push_str(&mut v, "/");
    push_str(&mut v, interface);
    push_str(&mut v, "/");
    push_str(&mut v, method);
    push_str(&mut v, "/v");
    let d = crate::text::decimal_chars(version);
    crate::text::push_all(&mut v, d.as_slice());
    string_of(v.as_slice())
}

/// The community path of a trade offer, `/tradeoffer/{tradeofferid}`, followed by `suffix`.
pub open spec fn offer_path(tradeofferid: u64, suffix: Seq<char>) -> Seq<char> {
    "/tradeoffer/"@ + decimal(tradeofferid as nat) + suffix
}

/// Builds the community URL of a trade offer followed by `suffix` (such as `/accept`).
pub fn get_offer_url(tradeofferid: TradeOfferId, suffix: &str) -> (res: String)
    ensures
        res@ == community_url(offer_path(tradeofferid, suffix@)),
{
    let mut v: Vec<char> = Vec::new();
    push_str(&mut v, "https://steamcommunity.com");
    push_str(&mut v, "/tradeoffer/");
    let d = crate::text::decimal_chars(tradeofferid);
    crate::text::push_all(&mut v, d.as_slice());
    push_str(&mut v, suffix);
    string_of(v.as_slice())
}

// ---------------------------------------------------------------------------------------------
// Credentials.
// ---------------------------------------------------------------------------------------------

/// The credential that a Web API request is made with.
#[derive(Debug, Clone, PartialEq, Eq)]
pub enum Credential {
    /// A JWT access token from the login cookie.
    AccessToken(String),
    /// A Web API key.
    Key(String),
}

/// The credential chosen from an API key and an access token: the access token where there is
/// one (the key is then not sent), else the key, else none.
pub open spec fn credential_spec(api_key: Option<String>, access_token: Option<String>) -> Option<
    Credential,
> {
    match access_token {
        Some(token) => Some(Credential::AccessToken(token)),
        None => match api_key {
            Some(key) => Some(Credential::Key(key)),
            None => None,
        },
    }
}

/// Chooses the credential of a Web API request. It fails with `MissingApiKeyOrAccessToken`
/// exactly when there is neither a key nor an access token.
pub fn select_credential(api_key: &Option<String>, access_token: &Option<String>) -> (res: Result<
    Credential,
    ParameterError,
>)
    ensures
        match credential_spec(*api_key, *access_token) {
            Some(c) => res == Ok::<Credential, ParameterError>(c),
            None => res == Err::<Credential, ParameterError>(
                ParameterError::MissingApiKeyOrAccessToken,
            ),
        },
{
    match access_token {
        Some(token) => Ok(Credential::AccessToken(token.clone())),
        None => match api_key {
            Some(key) => Ok(Credential::Key(key.clone())),
            None => Err(ParameterError::MissingApiKeyOrAccessToken),
        },
    }
}

// ---------------------------------------------------------------------------------------------
// Referer URLs of new offers.
// ---------------------------------------------------------------------------------------------

/// What `url::Url::parse_with_params` gives for `base` and the query pairs `params`, serialized,
/// or `None` where it fails to parse `base`.
pub uninterp spec fn parsed_url_with_params(
    base: Seq<char>,
    params: Seq<(Seq<char>, Seq<char>)>,
) -> Option<Seq<char>>;

/// Parses `base` as an absolute URL and appends the query pairs `params`.
///
/// Calls `url::Url::parse_with_params` and converts the URL into its serialization; an error
/// becomes `None`. The contract names the result with [`parsed_url_with_params`]: it depends on
/// `base` and `params` alone. How the crate normalizes the URL and percent-encodes the pairs is
/// left unsaid.
#[verifier::external_body]
fn url_with_params(base: &str, params: &Vec<(String, String)>) -> (res: Option<String>)
    ensures
        match res {
            Some(url) => parsed_url_with_params(base@, params.deep_view()) == Some(url@),
            None => parsed_url_with_params(base@, params.deep_view()) is None,
        },
{
    match url::Url::parse_with_params(base, params.iter()) {
        Ok(url) => Some(url.into()),
        Err(_) => None,
    }
}

/// The query pairs of a referer URL: the partner's account ID and, where there is one, the
/// trade token.
pub open spec fn referer_params(partner: u64, token: Option<Seq<char>>) -> Seq<
    (Seq<char>, Seq<char>),
> {
    let first = seq![("partner"@, decimal(account_id_spec(partner) as nat))];
    match token {
        Some(t) => first.push(("token"@, t)),
        None => first,
    }
}

/// The characters of an optional string.
pub open spec fn str_opt_view(o: Option<&str>) -> Option<Seq<char>> {
    match o {
        Some(t) => Some(t@),
        None => None,
    }
}

/// The referer URL of the offer page at `pathname` (`new` or the ID of the offer being
/// countered) for `partner`, as `url::Url::parse_with_params` builds it.
pub open spec fn referer_url_spec(pathname: Seq<char>, partner: u64, token: Option<Seq<char>>) -> Option<
    Seq<char>,
> {
    parsed_url_with_params(
        community_url("/tradeoffer/"@ + pathname),
        referer_params(partner, token),
    )
}

/// Builds the URL of the offer page at `pathname` for `partner`, with the partner's account ID
/// and trade token as its query. It fails with `UrlParse` exactly when the URL cannot be parsed.
pub fn offer_referer_url(pathname: &str, partner: u64, token: Option<&str>) -> (res: Result<
    String,
    ParameterError,
>)
    ensures
        match referer_url_spec(pathname@, partner, str_opt_view(token)) {
            Some(url) => res is Ok && res->Ok_0@ == url,
            None => res == Err::<String, ParameterError>(ParameterError::UrlParse),
        },
{
    let mut path: Vec<char> = Vec::new();
    push_str(&mut path, "/tradeoffer/");
    push_str(&mut path, pathname);
    let path = string_of(path.as_slice());
    let base = get_url(path.as_str());
    let mut params: Vec<(String, String)> = Vec::new();
    params.push((String::from_str("partner"), decimal_string(account_id(partner) as u64)));
    match token {
        Some(t) => {
            params.push((String::from_str("token"), String::from_str(t)));
        },
        None => {},
    }
    proof {
        assert(path@ == "/tradeoffer/"@ + pathname@);
        assert(params.deep_view() =~= referer_params(partner, str_opt_view(token)));
    }
    match url_with_params(base.as_str(), &params) {
        Some(url) => Ok(url),
        None => Err(ParameterError::UrlParse),
    }
}


// ---------------------------------------------------------------------------------------------
// Sending and acting on offers.
// ---------------------------------------------------------------------------------------------

/// What a request to send an offer is made of, besides the offer itself.
#[derive(Debug, Clone)]
pub struct SendOfferRequest {
    /// The session ID of the login.
    pub sessionid: String,
    /// The referer: the page of the new offer, or of the offer being countered.
    pub referer: String,
    /// The version of the offer form: one more than the number of items, as a `u32` that wraps.
    pub version: u32,
    /// The offer being countered, if any.
    pub tradeofferid_countered: Option<TradeOfferId>,
}

/// The page name of an offer: `new`, or the ID of the offer it counters.
pub open spec fn offer_pathname(counter_tradeofferid: Option<TradeOfferId>) -> Seq<char> {
    match counter_tradeofferid {
        Some(id) => decimal(id as nat),
        None => "new"@,
    }
}

/// The number of items of an offer.
pub open spec fn offer_num_items(offer: NewTradeOffer) -> nat {
    offer.items_to_give@.len() + offer.items_to_receive@.len()
}

/// The characters of an optional `String`.
pub open spec fn string_opt_view(o: Option<String>) -> Option<Seq<char>> {
    match o {
        Some(t) => Some(t@),
        None => None,
    }
}

/// Prepares a request to send `offer`, countering `counter_tradeofferid` if given, with the
/// session ID of the login. An offer without items is refused with `EmptyOffer`, then a missing
/// session with `NotLoggedIn`, then a referer that cannot be built with `UrlParse`.
pub fn prepare_send_offer(
    offer: &NewTradeOffer,
    counter_tradeofferid: Option<TradeOfferId>,
    sessionid: &Option<String>,
) -> (res: Result<SendOfferRequest, Error>)
    requires
        offer_num_items(*offer) <= usize::MAX,
    ensures
        offer_num_items(*offer) == 0 ==> res == Err::<SendOfferRequest, Error>(
            Error::Parameter(ParameterError::EmptyOffer),
        ),
        offer_num_items(*offer) != 0 && sessionid.is_none() ==> res == Err::<
            SendOfferRequest,
            Error,
        >(Error::NotLoggedIn),
        offer_num_items(*offer) != 0 && sessionid.is_some() ==> match referer_url_spec(
            offer_pathname(counter_tradeofferid),
            offer.partner,
            string_opt_view(offer.token),
        ) {
            None => res == Err::<SendOfferRequest, Error>(
                Error::Parameter(ParameterError::UrlParse),
            ),
            Some(url) => res is Ok && res->Ok_0.sessionid == sessionid->0 && res->Ok_0.referer@
                == url && res->Ok_0.version == (offer_num_items(*offer) % 0x1_0000_0000 + 1)
                % 0x1_0000_0000
                && res->Ok_0.tradeofferid_countered == counter_tradeofferid,
        },
{
    let num_items = offer.items_to_give.len() + offer.items_to_receive.len();
    if num_items == 0 {
        return Err(Error::Parameter(ParameterError::EmptyOffer));
    }
    let sessionid = match sessionid {
        Some(s) => s.clone(),
        None => return Err(Error::NotLoggedIn),
    };
    let pathname = match counter_tradeofferid {
        Some(id) => decimal_string(id),
        None => String::from_str("new"),
    };
    let token: Option<&str> = match &offer.token {
        Some(t) => Some(t.as_str()),
        None => None,
    };
    proof {
        assert(str_opt_view(token) == string_opt_view(offer.token));
    }
    let referer = match offer_referer_url(pathname.as_str(), offer.partner, token) {
        Ok(url) => url,
        Err(e) => return Err(Error::Parameter(e)),
    };
    Ok(
        SendOfferRequest {
            sessionid,
            referer,
            version: ((num_items as u64 % 0x1_0000_0000) as u32).wrapping_add(1),
            tradeofferid_countered: counter_tradeofferid,
        },
    )
}

/// What a request to accept, decline or cancel an offer is made of.
#[derive(Debug, Clone)]
pub struct OfferActionRequest {
    /// The session ID of the login.
    pub sessionid: String,
    /// The referer: the page of the offer.
    pub referer: String,
    /// The URL the request is posted to.
    pub url: String,
}

/// `res` is the request for `suffix` (such as `/accept`) on the offer `tradeofferid`, or
/// `NotLoggedIn` without a session.
pub open spec fn offer_action_ok(
    res: Result<OfferActionRequest, Error>,
    tradeofferid: TradeOfferId,
    sessionid: Option<String>,
    suffix: Seq<char>,
) -> bool {
    match sessionid {
        None => res == Err::<OfferActionRequest, Error>(Error::NotLoggedIn),
        Some(s) => res is Ok && res->Ok_0.sessionid == s && res->Ok_0.referer@ == community_url(
            offer_path(tradeofferid, Seq::empty()),
        ) && res->Ok_0.url@ == community_url(offer_path(tradeofferid, suffix)),
    }
}

fn offer_action(tradeofferid: TradeOfferId, sessionid: &Option<String>, suffix: &str) -> (res:
    Result<OfferActionRequest, Error>)
    ensures
        offer_action_ok(res, tradeofferid, *sessionid, suffix@),
{
    let sessionid = match sessionid {
        Some(s) => s.clone(),
        None => return Err(Error::NotLoggedIn),
    };
    let referer = get_offer_url(tradeofferid, "");
    proof {
        reveal_strlit("");
        assert(offer_path(tradeofferid, ""@) =~= offer_path(tradeofferid, Seq::empty()));
    }
    let url = get_offer_url(tradeofferid, suffix);
    Ok(OfferActionRequest { sessionid, referer, url })
}

/// Prepares a request to accept the offer `tradeofferid`.
pub fn accept_offer_request(tradeofferid: TradeOfferId, sessionid: &Option<String>) -> (res:
    Result<OfferActionRequest, Error>)
    ensures
        offer_action_ok(res, tradeofferid, *sessionid, "/accept"@),
{
    offer_action(tradeofferid, sessionid, "/accept")
}

/// Prepares a request to decline the offer `tradeofferid`.
pub fn decline_offer_request(tradeofferid: TradeOfferId, sessionid: &Option<String>) -> (res:
    Result<OfferActionRequest, Error>)
    ensures
        offer_action_ok(res, tradeofferid, *sessionid, "/decline"@),
{
    offer_action(tradeofferid, sessionid, "/decline")
}

/// Prepares a request to cancel the offer `tradeofferid`.
pub fn cancel_offer_request(tradeofferid: TradeOfferId, sessionid: &Option<String>) -> (res:
    Result<OfferActionRequest, Error>)
    ensures
        offer_action_ok(res, tradeofferid, *sessionid, "/cancel"@),
{
    offer_action(tradeofferid, sessionid, "/cancel")
}


// ---------------------------------------------------------------------------------------------
// Responses of the Web API.
// ---------------------------------------------------------------------------------------------

/// The body of a GetTradeOffers response.
#[derive(Debug, Clone)]
pub struct GetTradeOffersResponseBody {
    /// Offers we sent.
    pub trade_offers_sent: Vec<RawTradeOffer>,
    /// Offers we received.
    pub trade_offers_received: Vec<RawTradeOffer>,
    /// The descriptions of the items, when they were asked for.
    pub descriptions: Option<ClassInfoMap>,
    /// The cursor of the next page.
    pub next_cursor: Option<u32>,
}

/// A GetTradeOffers response.
#[derive(Debug, Clone)]
pub struct GetTradeOffersResponse {
    /// The body.
    pub response: GetTradeOffersResponseBody,
}

/// A page of an inventory, without the descriptions of its items.
#[derive(Debug, Clone)]
pub struct GetInventoryResponseIgnoreDescriptions {
    /// Whether the request succeeded.
    pub success: bool,
    /// Whether there are more items.
    pub more_items: bool,
    /// The items.
    pub assets: Vec<RawAsset>,
    /// The asset ID to start the next page at.
    pub last_assetid: Option<u64>,
}

/// A page of an inventory from the old endpoint.
#[derive(Debug, Clone)]
pub struct GetInventoryOldResponse {
    /// Whether the request succeeded.
    pub success: bool,
    /// Whether there are more items.
    pub more_items: bool,
    /// Where the next page starts.
    pub more_start: Option<u64>,
    /// The items.
    pub assets: Vec<RawAssetOld>,
    /// The descriptions of the items.
    pub descriptions: ClassInfoAppMap,
}

/// A GetAssetClassInfo response: the raw JSON of each classinfo.
#[derive(Debug, Clone)]
pub struct GetAssetClassInfoResponse {
    /// The classinfos, as JSON text.
    pub result: Vec<(ClassInfoAppClass, String)>,
}

/// The body of a GetTradeHistory response.
#[derive(Debug, Clone)]
pub struct GetTradeHistoryResponseBody {
    /// Whether more trades can be fetched.
    pub more: bool,
    /// The total trades of the account, when it was asked for.
    pub total_trades: Option<u32>,
    /// The trades.
    pub trades: Vec<RawTrade>,
    /// The descriptions of the items, when they were asked for.
    pub descriptions: Option<ClassInfoMap>,
}

/// A GetTradeHistory response.
#[derive(Debug, Clone)]
pub struct GetTradeHistoryResponse {
    /// The body.
    pub response: GetTradeHistoryResponseBody,
}

// ---------------------------------------------------------------------------------------------
// Pages of trade offers.
// ---------------------------------------------------------------------------------------------

/// Whether some offer of `s` was created before `cutoff`.
pub open spec fn has_older(s: Seq<RawTradeOffer>, cutoff: ServerTime) -> bool {
    exists|i: int| 0 <= i < s.len() && #[trigger] s[i].time_created < cutoff
}

/// The cursor to fetch next after a page of offers, or `None` to stop: paging stops at a page
/// holding an offer older than the historical cutoff, and otherwise goes on while the next
/// cursor is above zero.
pub open spec fn next_offers_cursor(
    page: Seq<RawTradeOffer>,
    next_cursor: Option<u32>,
    historical_cutoff: Option<ServerTime>,
) -> Option<u32> {
    if historical_cutoff is Some && has_older(page, historical_cutoff->0) {
        None
    } else {
        match next_cursor {
            Some(c) => if c > 0 {
                Some(c)
            } else {
                None
            },
            None => None,
        }
    }
}

/// Paging stops at a page that holds an offer, received or sent, created before the
/// historical cutoff, whenever it was last updated.
pub proof fn law_paging_stops_at_older_offer(
    received: Seq<RawTradeOffer>,
    sent: Seq<RawTradeOffer>,
    next_cursor: Option<u32>,
    cutoff: ServerTime,
    older: RawTradeOffer,
)
    requires
        received.contains(older) || sent.contains(older),
        older.time_created < cutoff,
    ensures
        next_offers_cursor(received + sent, next_cursor, Some(cutoff)) is None,
{
    let page = received + sent;
    if received.contains(older) {
        let k = choose|k: int| 0 <= k < received.len() && received[k] == older;
        assert(page[k] == older);
    } else {
        let k = choose|k: int| 0 <= k < sent.len() && sent[k] == older;
        assert(page[received.len() + k] == older);
    }
}

/// Paging goes on to a positive next cursor when there is no historical cutoff or when every
/// offer of the page was created at or after it, and stops at a missing or zero cursor.
pub proof fn law_paging_follows_cursor(
    page: Seq<RawTradeOffer>,
    next_cursor: Option<u32>,
    historical_cutoff: Option<ServerTime>,
)
    requires
        historical_cutoff matches Some(c) ==> forall|k: int|
            0 <= k < page.len() ==> page[k].time_created >= c,
    ensures
        next_offers_cursor(page, next_cursor, historical_cutoff) == match next_cursor {
            Some(n) => if n > 0 {
                Some(n)
            } else {
                None
            },
            None => None,
        },
        next_offers_cursor(page, None, historical_cutoff) is None,
        next_offers_cursor(page, Some(0), historical_cutoff) is None,
{
}

/// Takes a page of offers: appends the received offers, then the sent ones, to `offers`, keeps
/// its descriptions in `descriptions`, and returns the cursor to fetch next, if any.
pub fn take_offers_page(
    offers: &mut Vec<RawTradeOffer>,
    descriptions: &mut Vec<ClassInfoMap>,
    page: GetTradeOffersResponseBody,
    historical_cutoff: Option<ServerTime>,
) -> (res: Option<u32>)
    ensures
        final(offers)@ == old(offers)@ + page.trade_offers_received@ + page.trade_offers_sent@,
        final(descriptions)@ == match page.descriptions {
            Some(d) => old(descriptions)@.push(d),
            None => old(descriptions)@,
        },
        res == next_offers_cursor(
            page.trade_offers_received@ + page.trade_offers_sent@,
            page.next_cursor,
            historical_cutoff,
        ),
{
    let GetTradeOffersResponseBody {
        trade_offers_sent,
        trade_offers_received,
        descriptions: page_descriptions,
        next_cursor,
    } = page;
    let mut page_offers = trade_offers_received;
    let mut sent = trade_offers_sent;
    page_offers.append(&mut sent);
    match page_descriptions {
        Some(d) => descriptions.push(d),
        None => {},
    }
    let mut older = false;
    match historical_cutoff {
        Some(cutoff) => {
            let mut i: usize = 0;
            while i < page_offers.len() && !older
                invariant
                    i <= page_offers@.len(),
                    older ==> has_older(page_offers@, cutoff),
                    !older ==> forall|j: int|
                        0 <= j < i ==> page_offers@[j].time_created >= cutoff,
                decreases page_offers@.len() - i,
            {
                if page_offers[i].time_created < cutoff {
                    older = true;
                }
                i = i + 1;
            }
            proof {
                if !older {
                    assert(!has_older(page_offers@, cutoff));
                }
            }
        },
        None => {},
    }
    let ghost whole = page_offers@;
    offers.append(&mut page_offers);
    if older {
        None
    } else {
        match next_cursor {
            Some(c) => if c > 0 {
                Some(c)
            } else {
                None
            },
            None => None,
        }
    }
}

/// The map that the description maps of the pages make together: a later page's classinfo for
/// a class replaces an earlier one's.
pub open spec fn merged_maps(pages: Seq<ClassInfoMap>) -> Map<ClassInfoClass, Arc<ClassInfo>>
    decreases pages.len(),
{
    if pages.len() == 0 {
        Map::empty()
    } else {
        merged_maps(pages.drop_last()).union_prefer_right(pages.last()@)
    }
}

proof fn lemma_entries_concat(a: Seq<(ClassInfoClass, Arc<ClassInfo>)>, b: Seq<(ClassInfoClass, Arc<ClassInfo>)>)
    ensures
        entries_map(a + b) == entries_map(a).union_prefer_right(entries_map(b)),
    decreases b.len(),
{
    if b.len() == 0 {
        assert(a + b =~= a);
        assert(entries_map(a).union_prefer_right(entries_map(b)) =~= entries_map(a));
    } else {
        lemma_entries_concat(a, b.drop_last());
        assert((a + b).drop_last() =~= a + b.drop_last());
        assert((a + b).last() == b.last());
        assert(entries_map(a + b) =~= entries_map(a).union_prefer_right(entries_map(b)));
    }
}

/// Merges the description maps of the pages; `None` when no page had descriptions.
pub fn merge_descriptions(pages: Vec<ClassInfoMap>) -> (res: Option<ClassInfoMap>)
    ensures
        match res {
            Some(m) => pages@.len() > 0 && m@ == merged_maps(pages@),
            None => pages@.len() == 0,
        },
{
    if pages.len() == 0 {
        return None;
    }
    let ghost all = pages@;
    let mut pages = pages;
    let mut merged: ClassInfoMap = EntryMap::new();
    let ghost mut done: Seq<ClassInfoMap> = Seq::empty();
    while pages.len() > 0
        invariant
            all == done + pages@,
            merged@ == merged_maps(done),
        decreases pages@.len(),
    {
        let page = pages.remove(0);
        proof {
            lemma_entries_concat(merged.entry_list(), page.entry_list());
            assert((done.push(page)).drop_last() =~= done);
            assert(all == done.push(page) + pages@);
        }
        merged.append(page);
        proof {
            done = done.push(page);
        }
    }
    assert(done =~= all);
    Some(merged)
}

/// The seconds of a historical cutoff, as the request sends them.
pub fn cutoff_secs(historical_cutoff: Option<ServerTime>) -> (res: Option<u64>)
    requires
        historical_cutoff is Some ==> valid_time(historical_cutoff->0 as int),
    ensures
        match historical_cutoff {
            Some(t) => res == Some(timestamp_spec(t as int) as u64),
            None => res is None,
        },
{
    match historical_cutoff {
        Some(t) => Some(timestamp(t) as u64),
        None => None,
    }
}

// ---------------------------------------------------------------------------------------------
// Classes of items.
// ---------------------------------------------------------------------------------------------

/// Whether `c` is among `v`.
fn contains_class(v: &Vec<ClassInfoClass>, c: &ClassInfoClass) -> (res: bool)
    ensures
        res == v@.contains(*c),
{
    let mut i: usize = 0;
    while i < v.len()
        invariant
            i <= v@.len(),
            forall|j: int| 0 <= j < i ==> v@[j] != *c,
        decreases v@.len() - i,
    {
        if v[i].key_eq(c) {
            assert(v@[i as int] == *c);
            return true;
        }
        i = i + 1;
    }
    false
}

/// The classes of `classes`, each once, in the order they first occur.
pub fn dedup_classes(classes: &Vec<ClassInfoClass>) -> (res: Vec<ClassInfoClass>)
    ensures
        res@.no_duplicates(),
        forall|c: ClassInfoClass| res@.contains(c) <==> classes@.contains(c),
{
    let mut out: Vec<ClassInfoClass> = Vec::new();
    let mut i: usize = 0;
    while i < classes.len()
        invariant
            i <= classes@.len(),
            out@.no_duplicates(),
            forall|c: ClassInfoClass| out@.contains(c) <==> classes@.take(i as int).contains(c),
        decreases classes@.len() - i,
    {
        let c = classes[i];
        let ghost before = out@;
        if !contains_class(&out, &c) {
            out.push(c);
            proof {
                assert forall|j: int, k: int| 0 <= j < k < out@.len() implies out@[j] != out@[k] by {
                    if k == out@.len() - 1 {
                        assert(before.contains(before[j]));
                    }
                }
            }
        }
        proof {
            let t = classes@.take(i + 1);
            assert(t =~= classes@.take(i as int).push(c));
            assert forall|x: ClassInfoClass| out@.contains(x) <==> t.contains(x) by {
                if t.contains(x) {
                    let k = choose|k: int| 0 <= k < t.len() && t[k] == x;
                    if k < i {
                        assert(classes@.take(i as int)[k] == x);
                        assert(classes@.take(i as int).contains(x));
                        assert(before.contains(x));
                        let m = choose|m: int| 0 <= m < before.len() && before[m] == x;
                        assert(out@[m] == x);
                    } else {
                        assert(x == c);
                        if before.contains(c) {
                            let m = choose|m: int| 0 <= m < before.len() && before[m] == c;
                            assert(out@[m] == x);
                        } else {
                            assert(out@[out@.len() - 1] == x);
                        }
                    }
                }
                if out@.contains(x) {
                    let m = choose|m: int| 0 <= m < out@.len() && out@[m] == x;
                    if m < before.len() {
                        assert(before[m] == x);
                        assert(before.contains(x));
                        assert(classes@.take(i as int).contains(x));
                        let k = choose|k: int| 0 <= k < i && classes@.take(i as int)[k] == x;
                        assert(t[k] == x);
                    } else {
                        assert(x == c);
                        assert(t[i as int] == x);
                    }
                }
            }
        }
        i = i + 1;
    }
    assert(classes@.take(classes@.len() as int) =~= classes@);
    out
}

/// The class keys of raw assets, in order.
pub open spec fn classes_of(s: Seq<RawAsset>) -> Seq<ClassInfoClass> {
    s.map_values(|a: RawAsset| class_of(a))
}

/// The raw assets of offers, in order: of each offer, the items to give, then those to
/// receive.
pub open spec fn offer_assets(s: Seq<RawTradeOffer>) -> Seq<RawAsset>
    decreases s.len(),
{
    if s.len() == 0 {
        Seq::empty()
    } else {
        offer_assets(s.drop_last()) + s.last().items_to_give@ + s.last().items_to_receive@
    }
}

/// Appends the class keys of `assets` to `out`.
fn push_classes(out: &mut Vec<ClassInfoClass>, assets: &Vec<RawAsset>)
    ensures
        final(out)@ == old(out)@ + classes_of(assets@),
{
    let mut j: usize = 0;
    while j < assets.len()
        invariant
            j <= assets@.len(),
            out@ == old(out)@ + classes_of(assets@.take(j as int)),
        decreases assets@.len() - j,
    {
        let a = assets[j];
        out.push((a.appid, a.classid, a.instanceid));
        proof {
            assert(assets@.take(j + 1) =~= assets@.take(j as int).push(a));
            assert(classes_of(assets@.take(j + 1)) =~= classes_of(assets@.take(j as int)).push(
                class_of(a),
            ));
        }
        j = j + 1;
    }
    assert(assets@.take(assets@.len() as int) =~= assets@);
}

/// The classes of the items of `offers`, each once.
pub fn offer_classes(offers: &Vec<RawTradeOffer>) -> (res: Vec<ClassInfoClass>)
    ensures
        res@.no_duplicates(),
        forall|c: ClassInfoClass| res@.contains(c) <==> classes_of(offer_assets(offers@)).contains(c),
{
    let mut all: Vec<ClassInfoClass> = Vec::new();
    let mut i: usize = 0;
    while i < offers.len()
        invariant
            i <= offers@.len(),
            all@ == classes_of(offer_assets(offers@.take(i as int))),
        decreases offers@.len() - i,
    {
        let ghost before = all@;
        push_classes(&mut all, &offers[i].items_to_give);
        push_classes(&mut all, &offers[i].items_to_receive);
        proof {
            let t = offers@.take(i + 1);
            assert(t.drop_last() =~= offers@.take(i as int));
            assert(t.last() == offers@[i as int]);
            let o = offers@[i as int];
            assert(classes_of(offer_assets(t)) =~= before + classes_of(o.items_to_give@)
                + classes_of(o.items_to_receive@));
        }
        i = i + 1;
    }
    assert(offers@.take(offers@.len() as int) =~= offers@);
    dedup_classes(&all)
}

/// The classes of the given raw assets, each once.
pub fn asset_classes(assets: &Vec<RawAsset>) -> (res: Vec<ClassInfoClass>)
    ensures
        res@.no_duplicates(),
        forall|c: ClassInfoClass| res@.contains(c) <==> classes_of(assets@).contains(c),
{
    let mut all: Vec<ClassInfoClass> = Vec::new();
    push_classes(&mut all, assets);
    assert(all@ =~= classes_of(assets@));
    dedup_classes(&all)
}

// ---------------------------------------------------------------------------------------------
// Offers with descriptions.
// ---------------------------------------------------------------------------------------------

/// Whether `m` holds the classinfo of every item of `o`.
pub open spec fn offer_complete(o: RawTradeOffer, m: Map<ClassInfoClass, Arc<ClassInfo>>) -> bool {
    first_missing(o.items_to_give@, m) is None && first_missing(o.items_to_receive@, m) is None
}

/// The offers of `s` whose items `m` describes fully, in order.
pub open spec fn complete_offers(s: Seq<RawTradeOffer>, m: Map<ClassInfoClass, Arc<ClassInfo>>) -> Seq<
    RawTradeOffer,
>
    decreases s.len(),
{
    if s.len() == 0 {
        Seq::empty()
    } else if offer_complete(s.last(), m) {
        complete_offers(s.drop_last(), m).push(s.last())
    } else {
        complete_offers(s.drop_last(), m)
    }
}

/// Maps trade offers with the given descriptions, in order. Offers with a missing description
/// are left out.
pub fn map_raw_trade_offers_with_descriptions(offers: Vec<RawTradeOffer>, map: ClassInfoMap) -> (res:
    Vec<TradeOffer>)
    ensures
        res@.len() == complete_offers(offers@, map@).len(),
        forall|k: int|
            0 <= k < res@.len() ==> combine_offer_ok(
                Ok(#[trigger] res@[k]),
                complete_offers(offers@, map@)[k],
                map@,
            ),
{
    let ghost all = offers@;
    let mut rest = offers;
    let mut out: Vec<TradeOffer> = Vec::new();
    let ghost mut done: Seq<RawTradeOffer> = Seq::empty();
    while rest.len() > 0
        invariant
            all == done + rest@,
            out@.len() == complete_offers(done, map@).len(),
            forall|k: int|
                0 <= k < out@.len() ==> combine_offer_ok(
                    Ok(#[trigger] out@[k]),
                    complete_offers(done, map@)[k],
                    map@,
                ),
        decreases rest@.len(),
    {
        let offer = rest.remove(0);
        let ghost raw = offer;
        let ghost before = out@;
        proof {
            assert(done.push(raw).drop_last() =~= done);
            assert(all == done.push(raw) + rest@);
        }
        match offer.try_combine_classinfos(&map) {
            Ok(o) => {
                out.push(o);
                proof {
                    assert(offer_complete(raw, map@));
                    assert forall|k: int| 0 <= k < out@.len() implies combine_offer_ok(
                        Ok(#[trigger] out@[k]),
                        complete_offers(done.push(raw), map@)[k],
                        map@,
                    ) by {
                        if k < before.len() {
                            assert(out@[k] == before[k]);
                        }
                    }
                }
            },
            Err(_) => {
                proof {
                    assert(!offer_complete(raw, map@));
                }
            },
        }
        proof {
            done = done.push(raw);
        }
    }
    assert(done =~= all);
    out
}


// ---------------------------------------------------------------------------------------------
// Trade history.
// ---------------------------------------------------------------------------------------------

/// The options of a request for trade history made from `options`: the total is always asked
/// for, descriptions as given.
pub fn history_request_options(options: &GetTradeHistoryOptions, get_descriptions: bool) -> (res:
    GetTradeHistoryRequestOptions)
    ensures
        res == (GetTradeHistoryRequestOptions {
            max_trades: options.max_trades,
            start_after_time: options.start_after_time,
            start_after_tradeid: options.start_after_tradeid,
            navigating_back: options.navigating_back,
            get_descriptions,
            include_failed: options.include_failed,
            include_total: true,
        }),
{
    GetTradeHistoryRequestOptions {
        max_trades: options.max_trades,
        start_after_time: options.start_after_time,
        start_after_tradeid: options.start_after_tradeid,
        navigating_back: options.navigating_back,
        get_descriptions,
        include_failed: options.include_failed,
        include_total: true,
    }
}

/// The UNIX timestamp in seconds that trades are fetched after, as the request sends it: cut
/// to its low 32 bits.
pub fn start_after_secs(start_after_time: Option<ServerTime>) -> (res: Option<u32>)
    requires
        start_after_time is Some ==> valid_time(start_after_time->0 as int),
    ensures
        match start_after_time {
            Some(t) => res == Some(timestamp_spec(t as int) as u32),
            None => res is None,
        },
{
    match start_after_time {
        Some(t) => Some(timestamp(t) as u32),
        None => None,
    }
}

/// Whether `m` holds the classinfo of every asset of the trade `t`.
pub open spec fn trade_complete(t: RawTrade, m: Map<ClassInfoClass, Arc<ClassInfo>>) -> bool {
    &&& first_missing(t.assets_given@.map_values(|a: RawTradeAsset| trade_raw(a)), m) is None
    &&& first_missing(t.assets_received@.map_values(|a: RawTradeAsset| trade_raw(a)), m) is None
}

/// The first trade of `s` that `m` does not describe fully, if any.
pub open spec fn first_incomplete_trade(s: Seq<RawTrade>, m: Map<ClassInfoClass, Arc<ClassInfo>>) -> Option<
    int,
>
    decreases s.len(),
{
    if s.len() == 0 {
        None
    } else {
        match first_incomplete_trade(s.drop_last(), m) {
            Some(i) => Some(i),
            None => if trade_complete(s.last(), m) {
                None
            } else {
                Some(s.len() - 1)
            },
        }
    }
}

proof fn lemma_first_incomplete_trade(s: Seq<RawTrade>, m: Map<ClassInfoClass, Arc<ClassInfo>>)
    ensures
        match first_incomplete_trade(s, m) {
            Some(i) => 0 <= i < s.len() && !trade_complete(s[i], m) && forall|j: int|
                0 <= j < i ==> trade_complete(s[j], m),
            None => forall|j: int| 0 <= j < s.len() ==> trade_complete(s[j], m),
        },
    decreases s.len(),
{
    if s.len() > 0 {
        lemma_first_incomplete_trade(s.drop_last(), m);
        assert forall|j: int| 0 <= j < s.len() - 1 implies s[j] == s.drop_last()[j] by {}
    }
}

/// The message of the error for a history response without descriptions.
pub open spec fn no_descriptions_message() -> Seq<char> {
    "No descriptions in response body."@
}

/// `res` is the trade history that `body` gives: no trades give an empty history; otherwise
/// the descriptions are needed, and every trade is described with them, failing on the first
/// trade with a missing classinfo. The total is 0 where the body has none.
pub open spec fn trade_history_ok(res: Result<Trades, Error>, body: GetTradeHistoryResponseBody) -> bool {
    let total = match body.total_trades {
        Some(t) => t,
        None => 0,
    };
    if body.trades@.len() == 0 {
        res is Ok && res->Ok_0.trades@.len() == 0 && res->Ok_0.more == body.more
            && res->Ok_0.total_trades == total
    } else {
        match body.descriptions {
            None => res is Err && res->Err_0 is UnexpectedResponse
                && res->Err_0->UnexpectedResponse_0@ == no_descriptions_message(),
            Some(d) => match first_incomplete_trade(body.trades@, d@) {
                Some(i) => res is Err && res->Err_0 is MissingClassInfo && combine_trade_ok(
                    Err(res->Err_0->MissingClassInfo_0),
                    body.trades@[i],
                    d@,
                ),
                None => res is Ok && res->Ok_0.more == body.more && res->Ok_0.total_trades == total
                    && res->Ok_0.trades@.len() == body.trades@.len() && forall|k: int|
                    0 <= k < body.trades@.len() ==> combine_trade_ok(
                        Ok(#[trigger] res->Ok_0.trades@[k]),
                        body.trades@[k],
                        d@,
                    ),
            },
        }
    }
}

/// The trade history of a body holds its trades one for one and in order, and each asset a
/// trade gave or received keeps the amount and the IDs of its raw asset.
pub proof fn law_trade_history_keeps_amounts(res: Trades, body: GetTradeHistoryResponseBody)
    requires
        trade_history_ok(Ok(res), body),
    ensures
        res.trades@.len() == body.trades@.len(),
        res.more == body.more,
        forall|k: int, j: int|
            0 <= k < body.trades@.len() && 0 <= j < body.trades@[k].assets_given@.len() ==> {
                let t = #[trigger] res.trades@[k].assets_given@[j];
                let r = body.trades@[k].assets_given@[j];
                t.amount == r.amount && t.assetid == r.assetid && t.appid == r.appid
                    && t.contextid == r.contextid && t.new_assetid == r.new_assetid
                    && t.new_contextid == r.new_contextid
            },
        forall|k: int, j: int|
            0 <= k < body.trades@.len() && 0 <= j < body.trades@[k].assets_received@.len() ==> {
                let t = #[trigger] res.trades@[k].assets_received@[j];
                let r = body.trades@[k].assets_received@[j];
                t.amount == r.amount && t.assetid == r.assetid && t.appid == r.appid
                    && t.contextid == r.contextid && t.new_assetid == r.new_assetid
                    && t.new_contextid == r.new_contextid
            },
{
    if body.trades@.len() > 0 {
        let d = body.descriptions->Some_0;
        assert forall|k: int, j: int|
            0 <= k < body.trades@.len() && 0 <= j < body.trades@[k].assets_given@.len() implies {
                let t = #[trigger] res.trades@[k].assets_given@[j];
                let r = body.trades@[k].assets_given@[j];
                t.amount == r.amount && t.assetid == r.assetid && t.appid == r.appid
                    && t.contextid == r.contextid && t.new_assetid == r.new_assetid
                    && t.new_contextid == r.new_contextid
            } by {
            crate::response::law_trade_keeps_assets(res.trades@[k], body.trades@[k], d@);
        }
        assert forall|k: int, j: int|
            0 <= k < body.trades@.len() && 0 <= j < body.trades@[k].assets_received@.len() implies {
                let t = #[trigger] res.trades@[k].assets_received@[j];
                let r = body.trades@[k].assets_received@[j];
                t.amount == r.amount && t.assetid == r.assetid && t.appid == r.appid
                    && t.contextid == r.contextid && t.new_assetid == r.new_assetid
                    && t.new_contextid == r.new_contextid
            } by {
            crate::response::law_trade_keeps_assets(res.trades@[k], body.trades@[k], d@);
        }
    }
}

/// Makes the trade history of a response body, describing its trades.
pub fn trade_history_from(body: GetTradeHistoryResponseBody) -> (res: Result<Trades, Error>)
    ensures
        trade_history_ok(res, body),
{
    let ghost b = body;
    let total_trades = match body.total_trades {
        Some(t) => t,
        None => 0,
    };
    if body.trades.len() == 0 {
        return Ok(Trades { trades: Vec::new(), more: body.more, total_trades });
    }
    let descriptions = match body.descriptions {
        Some(d) => d,
        None => {
            return Err(
                Error::UnexpectedResponse(String::from_str("No descriptions in response body.")),
            );
        },
    };
    let mut rest = body.trades;
    let mut trades: Vec<Trade> = Vec::new();
    let ghost mut done: Seq<RawTrade> = Seq::empty();
    while rest.len() > 0
        invariant
            b.trades@ == done + rest@,
            b.descriptions == Some(descriptions),
            b == body,
            trades@.len() == done.len(),
            forall|j: int| 0 <= j < done.len() ==> trade_complete(done[j], descriptions@),
            forall|k: int|
                0 <= k < done.len() ==> combine_trade_ok(
                    Ok(#[trigger] trades@[k]),
                    done[k],
                    descriptions@,
                ),
        decreases rest@.len(),
    {
        let trade = rest.remove(0);
        let ghost raw = trade;
        let ghost before = trades@;
        proof {
            assert(b.trades@ == done.push(raw) + rest@);
            assert(b.trades@[done.len() as int] == raw);
        }
        match trade.try_combine_classinfos(&descriptions) {
            Ok(t) => {
                trades.push(t);
                proof {
                    assert forall|k: int| 0 <= k < done.len() + 1 implies combine_trade_ok(
                        Ok(#[trigger] trades@[k]),
                        done.push(raw)[k],
                        descriptions@,
                    ) by {
                        if k < done.len() {
                            assert(trades@[k] == before[k]);
                        }
                    }
                    assert forall|j: int| 0 <= j < done.len() + 1 implies trade_complete(
                        done.push(raw)[j],
                        descriptions@,
                    ) by {
                        if j < done.len() {
                            assert(done.push(raw)[j] == done[j]);
                        }
                    }
                }
            },
            Err(e) => {
                proof {
                    lemma_first_incomplete_trade(b.trades@, descriptions@);
                    assert(!trade_complete(raw, descriptions@));
                    match first_incomplete_trade(b.trades@, descriptions@) {
                        Some(i) => {
                            if i < done.len() {
                                assert(b.trades@[i] == done[i]);
                            }
                            if i > done.len() {
                                assert(trade_complete(b.trades@[done.len() as int], descriptions@));
                            }
                        },
                        None => {
                            assert(trade_complete(b.trades@[done.len() as int], descriptions@));
                        },
                    }
                    assert(first_incomplete_trade(b.trades@, descriptions@) == Some(
                        done.len() as int,
                    ));
                    assert(b.descriptions == Some(descriptions));
                    assert(combine_trade_ok(Err(e), b.trades@[done.len() as int], descriptions@));
                }
                return Err(Error::MissingClassInfo(e));
            },
        }
        proof {
            done = done.push(raw);
        }
    }
    proof {
        assert(done =~= b.trades@);
        lemma_first_incomplete_trade(b.trades@, descriptions@);
        if let Some(i) = first_incomplete_trade(b.trades@, descriptions@) {
            assert(trade_complete(done[i], descriptions@));
        }
    }
    Ok(Trades { trades, more: body.more, total_trades })
}

/// The trades of a response body without descriptions; the total is 0 where the body has
/// none.
pub fn raw_trades_from(body: GetTradeHistoryResponseBody) -> (res: RawTrades)
    ensures
        res.trades == body.trades,
        res.more == body.more,
        res.total_trades == match body.total_trades {
            Some(t) => t,
            None => 0,
        },
{
    RawTrades {
        trades: body.trades,
        more: body.more,
        total_trades: match body.total_trades {
            Some(t) => t,
            None => 0,
        },
    }
}


// ---------------------------------------------------------------------------------------------
// Pages of inventories.
// ---------------------------------------------------------------------------------------------

/// What to do after a page of an inventory.
#[derive(Debug, Clone, Copy, PartialEq, Eq)]
pub enum PageStep {
    /// Fetch the next page, starting at the given cursor.
    Next(Option<u64>),
    /// This was the last page.
    Last,
}

/// The message of the error for a page whose cursor repeats the previous one.
pub open spec fn same_cursor_message() -> Seq<char> {
    "Pagination cursor is the same as the previous response."@
}

/// Decides what follows a page of an inventory fetched at `start`: an unsuccessful page fails
/// with `ResponseUnsuccessful`; a page with more items goes on at `next_start`, unless that
/// cursor is `start` again, which fails with `MalformedResponse` rather than fetch the same page
/// forever.
pub fn inventory_page_step(
    success: bool,
    more_items: bool,
    start: Option<u64>,
    next_start: Option<u64>,
) -> (res: Result<PageStep, Error>)
    ensures
        !success ==> res == Err::<PageStep, Error>(Error::ResponseUnsuccessful),
        success && more_items && next_start == start ==> res is Err && res->Err_0 is MalformedResponse
            && res->Err_0->MalformedResponse_0@ == same_cursor_message(),
        success && more_items && next_start != start ==> res == Ok::<PageStep, Error>(
            PageStep::Next(next_start),
        ),
        success && !more_items ==> res == Ok::<PageStep, Error>(PageStep::Last),
{
    if !success {
        return Err(Error::ResponseUnsuccessful);
    }
    if more_items {
        let same = match (start, next_start) {
            (Some(a), Some(b)) => a == b,
            (None, None) => true,
            _ => false,
        };
        if same {
            Err(Error::MalformedResponse("Pagination cursor is the same as the previous response."))
        } else {
            Ok(PageStep::Next(next_start))
        }
    } else {
        Ok(PageStep::Last)
    }
}

// ---------------------------------------------------------------------------------------------
// Inventories.
// ---------------------------------------------------------------------------------------------

/// An item of an inventory as the assembly reads it: class ID, instance ID, asset ID, amount.
pub type InventoryItem = (ClassId, InstanceId, AssetId, Amount);

/// The classinfo that `m` holds for `k`, if any.
pub open spec fn lookup(m: Map<ClassInfoAppClass, Arc<ClassInfo>>, k: ClassInfoAppClass) -> Option<
    Arc<ClassInfo>,
> {
    if m.contains_key(k) {
        Some(m[k])
    } else {
        None
    }
}

/// Adds an item to an inventory being assembled: an earlier error stands; an item without a
/// classinfo fails; an item that cannot be traded is left out when only tradable items are
/// wanted.
pub open spec fn inventory_step(
    acc: Result<Seq<Asset>, Error>,
    m: Map<ClassInfoAppClass, Arc<ClassInfo>>,
    item: InventoryItem,
    appid: AppId,
    contextid: ContextId,
    tradable_only: bool,
) -> Result<Seq<Asset>, Error> {
    match acc {
        Err(e) => Err(e),
        Ok(s) => match lookup(m, (item.0, item.1)) {
            None => Err(
                Error::MissingClassInfo(
                    MissingClassInfoError { appid, classid: item.0, instanceid: item.1 },
                ),
            ),
            Some(c) => if tradable_only && !c.tradable {
                Ok(s)
            } else {
                Ok(
                    s.push(
                        Asset {
                            appid,
                            contextid,
                            assetid: item.2,
                            amount: item.3,
                            missing: false,
                            classinfo: c,
                        },
                    ),
                )
            },
        },
    }
}

/// Adds the items of `items`, in order, to the inventory being assembled.
pub open spec fn inventory_fold(
    acc: Result<Seq<Asset>, Error>,
    m: Map<ClassInfoAppClass, Arc<ClassInfo>>,
    items: Seq<InventoryItem>,
    appid: AppId,
    contextid: ContextId,
    tradable_only: bool,
) -> Result<Seq<Asset>, Error>
    decreases items.len(),
{
    if items.len() == 0 {
        acc
    } else {
        inventory_step(
            inventory_fold(acc, m, items.drop_last(), appid, contextid, tradable_only),
            m,
            items.last(),
            appid,
            contextid,
            tradable_only,
        )
    }
}

proof fn lemma_inventory_fold_err(
    acc: Result<Seq<Asset>, Error>,
    m: Map<ClassInfoAppClass, Arc<ClassInfo>>,
    items: Seq<InventoryItem>,
    appid: AppId,
    contextid: ContextId,
    tradable_only: bool,
    i: int,
)
    requires
        0 <= i <= items.len(),
        inventory_fold(acc, m, items.take(i), appid, contextid, tradable_only) is Err,
    ensures
        inventory_fold(acc, m, items, appid, contextid, tradable_only) == inventory_fold(
            acc,
            m,
            items.take(i),
            appid,
            contextid,
            tradable_only,
        ),
    decreases items.len() - i,
{
    if i < items.len() {
        assert(items.take(i + 1).drop_last() =~= items.take(i));
        lemma_inventory_fold_err(acc, m, items, appid, contextid, tradable_only, i + 1);
    } else {
        assert(items.take(i) =~= items);
    }
}

/// The classinfos of `m` for the app `appid`, keyed by class ID and instance ID.
pub open spec fn app_view(m: Map<ClassInfoClass, Arc<ClassInfo>>, appid: AppId) -> Map<
    ClassInfoAppClass,
    Arc<ClassInfo>,
> {
    Map::new(|k: ClassInfoAppClass| m.contains_key((appid, k.0, k.1)), |k: ClassInfoAppClass| m[(appid, k.0, k.1)])
}

/// Adds `items` to `out`, looking their classinfos up in `map` by class ID and instance ID.
fn add_items_app(
    out: &mut Vec<Asset>,
    map: &ClassInfoAppMap,
    items: &Vec<InventoryItem>,
    appid: AppId,
    contextid: ContextId,
    tradable_only: bool,
) -> (res: Result<(), Error>)
    ensures
        match res {
            Ok(()) => inventory_fold(Ok(old(out)@), map@, items@, appid, contextid, tradable_only)
                == Ok::<Seq<Asset>, Error>(final(out)@),
            Err(e) => inventory_fold(Ok(old(out)@), map@, items@, appid, contextid, tradable_only)
                == Err::<Seq<Asset>, Error>(e),
        },
{
    let ghost start = out@;
    let mut i: usize = 0;
    while i < items.len()
        invariant
            i <= items@.len(),
            start == old(out)@,
            inventory_fold(Ok(start), map@, items@.take(i as int), appid, contextid, tradable_only)
                == Ok::<Seq<Asset>, Error>(out@),
        decreases items@.len() - i,
    {
        let item = items[i];
        proof {
            assert(items@.take(i + 1).drop_last() =~= items@.take(i as int));
            assert(items@.take(i + 1).last() == item);
        }
        match map.get(&(item.0, item.1)) {
            Some(classinfo) => {
                if !(tradable_only && !classinfo.tradable) {
                    out.push(
                        Asset {
                            appid,
                            contextid,
                            assetid: item.2,
                            amount: item.3,
                            missing: false,
                            classinfo: share(classinfo),
                        },
                    );
                }
            },
            None => {
                let e = Error::MissingClassInfo(
                    MissingClassInfoError { appid, classid: item.0, instanceid: item.1 },
                );
                proof {
                    assert(lookup(map@, (item.0, item.1)) is None);
                    assert(inventory_fold(
                        Ok(start),
                        map@,
                        items@.take(i + 1),
                        appid,
                        contextid,
                        tradable_only,
                    ) == Err::<Seq<Asset>, Error>(e));
                    lemma_inventory_fold_err(
                        Ok(start),
                        map@,
                        items@,
                        appid,
                        contextid,
                        tradable_only,
                        i + 1,
                    );
                }
                return Err(e);
            },
        }
        i = i + 1;
    }
    assert(items@.take(items@.len() as int) =~= items@);
    Ok(())
}

/// Adds `items` to `out`, looking their classinfos up in `map` under the app `appid`.
fn add_items_full(
    out: &mut Vec<Asset>,
    map: &ClassInfoMap,
    items: &Vec<InventoryItem>,
    appid: AppId,
    contextid: ContextId,
    tradable_only: bool,
) -> (res: Result<(), Error>)
    ensures
        match res {
            Ok(()) => inventory_fold(
                Ok(old(out)@),
                app_view(map@, appid),
                items@,
                appid,
                contextid,
                tradable_only,
            ) == Ok::<Seq<Asset>, Error>(final(out)@),
            Err(e) => inventory_fold(
                Ok(old(out)@),
                app_view(map@, appid),
                items@,
                appid,
                contextid,
                tradable_only,
            ) == Err::<Seq<Asset>, Error>(e),
        },
{
    let ghost start = out@;
    let ghost m = app_view(map@, appid);
    let mut i: usize = 0;
    while i < items.len()
        invariant
            i <= items@.len(),
            start == old(out)@,
            m == app_view(map@, appid),
            inventory_fold(Ok(start), m, items@.take(i as int), appid, contextid, tradable_only)
                == Ok::<Seq<Asset>, Error>(out@),
        decreases items@.len() - i,
    {
        let item = items[i];
        proof {
            assert(items@.take(i + 1).drop_last() =~= items@.take(i as int));
            assert(items@.take(i + 1).last() == item);
        }
        match map.get(&(appid, item.0, item.1)) {
            Some(classinfo) => {
                if !(tradable_only && !classinfo.tradable) {
                    out.push(
                        Asset {
                            appid,
                            contextid,
                            assetid: item.2,
                            amount: item.3,
                            missing: false,
                            classinfo: share(classinfo),
                        },
                    );
                }
            },
            None => {
                let e = Error::MissingClassInfo(
                    MissingClassInfoError { appid, classid: item.0, instanceid: item.1 },
                );
                proof {
                    assert(lookup(m, (item.0, item.1)) is None);
                    assert(inventory_fold(
                        Ok(start),
                        m,
                        items@.take(i + 1),
                        appid,
                        contextid,
                        tradable_only,
                    ) == Err::<Seq<Asset>, Error>(e));
                    lemma_inventory_fold_err(
                        Ok(start),
                        m,
                        items@,
                        appid,
                        contextid,
                        tradable_only,
                        i + 1,
                    );
                }
                return Err(e);
            },
        }
        i = i + 1;
    }
    assert(items@.take(items@.len() as int) =~= items@);
    Ok(())
}

/// The inventory items of raw assets.
pub open spec fn raw_items(s: Seq<RawAsset>) -> Seq<InventoryItem> {
    s.map_values(|a: RawAsset| (a.classid, a.instanceid, a.assetid, a.amount))
}

/// The inventory items of assets from the old endpoint.
pub open spec fn old_items(s: Seq<RawAssetOld>) -> Seq<InventoryItem> {
    s.map_values(|a: RawAssetOld| (a.classid, a.instanceid, a.assetid, a.amount))
}

fn items_of_raw(assets: &Vec<RawAsset>) -> (res: Vec<InventoryItem>)
    ensures
        res@ == raw_items(assets@),
{
    let mut res: Vec<InventoryItem> = Vec::new();
    let mut i: usize = 0;
    while i < assets.len()
        invariant
            i <= assets@.len(),
            res@ == raw_items(assets@.take(i as int)),
        decreases assets@.len() - i,
    {
        let a = assets[i];
        res.push((a.classid, a.instanceid, a.assetid, a.amount));
        proof {
            assert(assets@.take(i + 1) =~= assets@.take(i as int).push(a));
            assert(raw_items(assets@.take(i + 1)) =~= raw_items(assets@.take(i as int)).push(
                (a.classid, a.instanceid, a.assetid, a.amount),
            ));
        }
        i = i + 1;
    }
    assert(assets@.take(assets@.len() as int) =~= assets@);
    res
}

fn items_of_old(assets: &Vec<RawAssetOld>) -> (res: Vec<InventoryItem>)
    ensures
        res@ == old_items(assets@),
{
    let mut res: Vec<InventoryItem> = Vec::new();
    let mut i: usize = 0;
    while i < assets.len()
        invariant
            i <= assets@.len(),
            res@ == old_items(assets@.take(i as int)),
        decreases assets@.len() - i,
    {
        let a = assets[i];
        res.push((a.classid, a.instanceid, a.assetid, a.amount));
        proof {
            assert(assets@.take(i + 1) =~= assets@.take(i as int).push(a));
            assert(old_items(assets@.take(i + 1)) =~= old_items(assets@.take(i as int)).push(
                (a.classid, a.instanceid, a.assetid, a.amount),
            ));
        }
        i = i + 1;
    }
    assert(assets@.take(assets@.len() as int) =~= assets@);
    res
}

/// The inventory that pages from the old endpoint make, in order, each item described by its
/// own page.
pub open spec fn old_pages_inventory(
    pages: Seq<GetInventoryOldResponse>,
    appid: AppId,
    contextid: ContextId,
) -> Result<Seq<Asset>, Error>
    decreases pages.len(),
{
    if pages.len() == 0 {
        Ok(Seq::empty())
    } else {
        inventory_fold(
            old_pages_inventory(pages.drop_last(), appid, contextid),
            pages.last().descriptions@,
            old_items(pages.last().assets@),
            appid,
            contextid,
            false,
        )
    }
}

proof fn lemma_inventory_fold_from_err(
    e: Error,
    m: Map<ClassInfoAppClass, Arc<ClassInfo>>,
    items: Seq<InventoryItem>,
    appid: AppId,
    contextid: ContextId,
    tradable_only: bool,
)
    ensures
        inventory_fold(Err(e), m, items, appid, contextid, tradable_only) == Err::<
            Seq<Asset>,
            Error,
        >(e),
    decreases items.len(),
{
    if items.len() > 0 {
        lemma_inventory_fold_from_err(e, m, items.drop_last(), appid, contextid, tradable_only);
    }
}

/// Assembles an inventory from the pages of the old endpoint. Every item gets the classinfo of
/// its page; the first item without one fails with `MissingClassInfo`.
pub fn inventory_from_old_pages(
    pages: &Vec<GetInventoryOldResponse>,
    appid: AppId,
    contextid: ContextId,
) -> (res: Result<Vec<Asset>, Error>)
    ensures
        match res {
            Ok(v) => old_pages_inventory(pages@, appid, contextid) == Ok::<Seq<Asset>, Error>(v@),
            Err(e) => old_pages_inventory(pages@, appid, contextid) == Err::<Seq<Asset>, Error>(e),
        },
{
    let mut out: Vec<Asset> = Vec::new();
    let mut i: usize = 0;
    while i < pages.len()
        invariant
            i <= pages@.len(),
            old_pages_inventory(pages@.take(i as int), appid, contextid) == Ok::<Seq<Asset>, Error>(
                out@,
            ),
        decreases pages@.len() - i,
    {
        let items = items_of_old(&pages[i].assets);
        proof {
            assert(pages@.take(i + 1).drop_last() =~= pages@.take(i as int));
        }
        match add_items_app(&mut out, &pages[i].descriptions, &items, appid, contextid, false) {
            Ok(()) => {},
            Err(e) => {
                proof {
                    lemma_old_pages_err(pages@, appid, contextid, i + 1, e);
                }
                return Err(e);
            },
        }
        i = i + 1;
    }
    assert(pages@.take(pages@.len() as int) =~= pages@);
    Ok(out)
}

proof fn lemma_old_pages_err(
    pages: Seq<GetInventoryOldResponse>,
    appid: AppId,
    contextid: ContextId,
    i: int,
    e: Error,
)
    requires
        0 <= i <= pages.len(),
        old_pages_inventory(pages.take(i), appid, contextid) == Err::<Seq<Asset>, Error>(e),
    ensures
        old_pages_inventory(pages, appid, contextid) == Err::<Seq<Asset>, Error>(e),
    decreases pages.len() - i,
{
    if i < pages.len() {
        assert(pages.take(i + 1).drop_last() =~= pages.take(i));
        let p = pages[i];
        lemma_inventory_fold_from_err(e, p.descriptions@, old_items(p.assets@), appid, contextid, false);
        lemma_old_pages_err(pages, appid, contextid, i + 1, e);
    } else {
        assert(pages.take(i) =~= pages);
    }
}


/// A page of an inventory with the descriptions of its items.
#[derive(Debug, Clone)]
pub struct GetInventoryResponse {
    /// Whether the request succeeded.
    pub success: bool,
    /// Whether there are more items.
    pub more_items: bool,
    /// The items.
    pub assets: Vec<RawAsset>,
    /// The descriptions of the items.
    pub descriptions: ClassInfoAppMap,
    /// The asset ID to start the next page at.
    pub last_assetid: Option<u64>,
}

/// The inventory that pages make, in order, each item described by its own page, leaving out
/// items that cannot be traded when only tradable ones are wanted.
pub open spec fn pages_inventory(
    pages: Seq<GetInventoryResponse>,
    appid: AppId,
    contextid: ContextId,
    tradable_only: bool,
) -> Result<Seq<Asset>, Error>
    decreases pages.len(),
{
    if pages.len() == 0 {
        Ok(Seq::empty())
    } else {
        inventory_fold(
            pages_inventory(pages.drop_last(), appid, contextid, tradable_only),
            pages.last().descriptions@,
            raw_items(pages.last().assets@),
            appid,
            contextid,
            tradable_only,
        )
    }
}

proof fn lemma_pages_err(
    pages: Seq<GetInventoryResponse>,
    appid: AppId,
    contextid: ContextId,
    tradable_only: bool,
    i: int,
    e: Error,
)
    requires
        0 <= i <= pages.len(),
        pages_inventory(pages.take(i), appid, contextid, tradable_only) == Err::<Seq<Asset>, Error>(
            e,
        ),
    ensures
        pages_inventory(pages, appid, contextid, tradable_only) == Err::<Seq<Asset>, Error>(e),
    decreases pages.len() - i,
{
    if i < pages.len() {
        assert(pages.take(i + 1).drop_last() =~= pages.take(i));
        let p = pages[i];
        lemma_inventory_fold_from_err(
            e,
            p.descriptions@,
            raw_items(p.assets@),
            appid,
            contextid,
            tradable_only,
        );
        lemma_pages_err(pages, appid, contextid, tradable_only, i + 1, e);
    } else {
        assert(pages.take(i) =~= pages);
    }
}

/// Assembles an inventory from its pages. Every item gets the classinfo of its page; the first
/// item without one fails with `MissingClassInfo`.
pub fn inventory_from_pages(
    pages: &Vec<GetInventoryResponse>,
    appid: AppId,
    contextid: ContextId,
    tradable_only: bool,
) -> (res: Result<Vec<Asset>, Error>)
    ensures
        match res {
            Ok(v) => pages_inventory(pages@, appid, contextid, tradable_only) == Ok::<
                Seq<Asset>,
                Error,
            >(v@),
            Err(e) => pages_inventory(pages@, appid, contextid, tradable_only) == Err::<
                Seq<Asset>,
                Error,
            >(e),
        },
{
    let mut out: Vec<Asset> = Vec::new();
    let mut i: usize = 0;
    while i < pages.len()
        invariant
            i <= pages@.len(),
            pages_inventory(pages@.take(i as int), appid, contextid, tradable_only) == Ok::<
                Seq<Asset>,
                Error,
            >(out@),
        decreases pages@.len() - i,
    {
        let items = items_of_raw(&pages[i].assets);
        proof {
            assert(pages@.take(i + 1).drop_last() =~= pages@.take(i as int));
        }
        match add_items_app(&mut out, &pages[i].descriptions, &items, appid, contextid, tradable_only) {
            Ok(()) => {},
            Err(e) => {
                proof {
                    lemma_pages_err(pages@, appid, contextid, tradable_only, i + 1, e);
                }
                return Err(e);
            },
        }
        i = i + 1;
    }
    assert(pages@.take(pages@.len() as int) =~= pages@);
    Ok(out)
}

/// The items of pages without descriptions, in order.
pub open spec fn pages_items(pages: Seq<GetInventoryResponseIgnoreDescriptions>) -> Seq<RawAsset>
    decreases pages.len(),
{
    if pages.len() == 0 {
        Seq::empty()
    } else {
        pages_items(pages.drop_last()) + pages.last().assets@
    }
}

/// Collects the items of pages without descriptions, in order.
pub fn inventory_items(pages: Vec<GetInventoryResponseIgnoreDescriptions>) -> (res: Vec<RawAsset>)
    ensures
        res@ == pages_items(pages@),
{
    let ghost all = pages@;
    let mut rest = pages;
    let mut out: Vec<RawAsset> = Vec::new();
    let ghost mut done: Seq<GetInventoryResponseIgnoreDescriptions> = Seq::empty();
    while rest.len() > 0
        invariant
            all == done + rest@,
            out@ == pages_items(done),
        decreases rest@.len(),
    {
        let page = rest.remove(0);
        let ghost p = page;
        let mut assets = page.assets;
        out.append(&mut assets);
        proof {
            assert(done.push(p).drop_last() =~= done);
            done = done.push(p);
        }
    }
    assert(done =~= all);
    out
}

/// Assembles an inventory of the app `appid` from its items and the classinfos of `map`. The
/// first item without a classinfo fails with `MissingClassInfo`; items that cannot be traded are
/// left out when only tradable ones are wanted.
pub fn inventory_with_classinfos(
    items: &Vec<RawAsset>,
    map: &ClassInfoMap,
    appid: AppId,
    contextid: ContextId,
    tradable_only: bool,
) -> (res: Result<Vec<Asset>, Error>)
    ensures
        match res {
            Ok(v) => inventory_fold(
                Ok(Seq::empty()),
                app_view(map@, appid),
                raw_items(items@),
                appid,
                contextid,
                tradable_only,
            ) == Ok::<Seq<Asset>, Error>(v@),
            Err(e) => inventory_fold(
                Ok(Seq::empty()),
                app_view(map@, appid),
                raw_items(items@),
                appid,
                contextid,
                tradable_only,
            ) == Err::<Seq<Asset>, Error>(e),
        },
{
    let list = items_of_raw(items);
    let mut out: Vec<Asset> = Vec::new();
    match add_items_full(&mut out, map, &list, appid, contextid, tradable_only) {
        Ok(()) => Ok(out),
        Err(e) => Err(e),
    }
}


/// `a` is the asset made of the item `item` (class ID, instance ID, asset ID, amount) in the
/// inventory of `appid` and `contextid`, described by `m`.
pub open spec fn asset_of_item(
    a: Asset,
    item: InventoryItem,
    m: Map<ClassInfoAppClass, Arc<ClassInfo>>,
    appid: AppId,
    contextid: ContextId,
) -> bool {
    &&& a.appid == appid
    &&& a.contextid == contextid
    &&& a.assetid == item.2
    &&& a.amount == item.3
    &&& !a.missing
    &&& m.contains_key((item.0, item.1))
    &&& a.classinfo == m[(item.0, item.1)]
}

/// `idx` lists, in increasing order, the positions in `items` of the assets `v`, each made of
/// the item at its position.
pub open spec fn assets_at(
    v: Seq<Asset>,
    items: Seq<InventoryItem>,
    idx: Seq<int>,
    m: Map<ClassInfoAppClass, Arc<ClassInfo>>,
    appid: AppId,
    contextid: ContextId,
) -> bool {
    &&& idx.len() == v.len()
    &&& forall|k: int|
        0 <= k < idx.len() ==> 0 <= #[trigger] idx[k] < items.len() && asset_of_item(
            v[k],
            items[idx[k]],
            m,
            appid,
            contextid,
        )
    &&& forall|k1: int, k2: int| 0 <= k1 < k2 < idx.len() ==> idx[k1] < idx[k2]
}

/// An item of an inventory that the assembly keeps: all of them, or the tradable ones when only
/// tradable items are wanted.
pub open spec fn item_kept(
    m: Map<ClassInfoAppClass, Arc<ClassInfo>>,
    item: InventoryItem,
    tradable_only: bool,
) -> bool {
    !tradable_only || m[(item.0, item.1)].tradable
}

proof fn lemma_fold_assets(
    acc: Seq<Asset>,
    m: Map<ClassInfoAppClass, Arc<ClassInfo>>,
    items: Seq<InventoryItem>,
    appid: AppId,
    contextid: ContextId,
    tradable_only: bool,
) -> (idx: Seq<int>)
    requires
        inventory_fold(Ok(acc), m, items, appid, contextid, tradable_only) is Ok,
    ensures
        inventory_fold(Ok(acc), m, items, appid, contextid, tradable_only)->Ok_0.len() >= acc.len(),
        inventory_fold(Ok(acc), m, items, appid, contextid, tradable_only)->Ok_0.subrange(
            0,
            acc.len() as int,
        ) == acc,
        assets_at(
            inventory_fold(Ok(acc), m, items, appid, contextid, tradable_only)->Ok_0.subrange(
                acc.len() as int,
                inventory_fold(Ok(acc), m, items, appid, contextid, tradable_only)->Ok_0.len() as int,
            ),
            items,
            idx,
            m,
            appid,
            contextid,
        ),
        forall|j: int| 0 <= j < items.len() ==> m.contains_key(((#[trigger] items[j]).0, items[j].1)),
        forall|j: int|
            0 <= j < items.len() ==> (idx.contains(j) <==> item_kept(m, #[trigger] items[j], tradable_only)),
    decreases items.len(),
{
    if items.len() == 0 {
        let v = acc;
        assert(v.subrange(0, acc.len() as int) =~= acc);
        let idx = Seq::<int>::empty();
        assert(assets_at(v.subrange(acc.len() as int, v.len() as int), items, idx, m, appid, contextid));
        idx
    } else {
        let rest = items.drop_last();
        let last = items.last();
        let prev = inventory_fold(Ok(acc), m, rest, appid, contextid, tradable_only);
        if prev is Err {
            assert(inventory_fold(Ok(acc), m, items, appid, contextid, tradable_only) is Err);
        }
        let idx0 = lemma_fold_assets(acc, m, rest, appid, contextid, tradable_only);
        let p = prev->Ok_0;
        let v = inventory_fold(Ok(acc), m, items, appid, contextid, tradable_only)->Ok_0;
        assert(m.contains_key((last.0, last.1)));
        let n = (items.len() - 1) as int;
        let kept = item_kept(m, last, tradable_only);
        let idx = if kept { idx0.push(n) } else { idx0 };
        assert(items[n] == last);
        assert forall|j: int| 0 <= j < rest.len() implies #[trigger] items[j] == rest[j] by {}
        let pv = p.subrange(acc.len() as int, p.len() as int);
        let vv = v.subrange(acc.len() as int, v.len() as int);
        if kept {
            assert(v == p.push(
                Asset {
                    appid,
                    contextid,
                    assetid: last.2,
                    amount: last.3,
                    missing: false,
                    classinfo: m[(last.0, last.1)],
                },
            ));
            assert(v.subrange(0, acc.len() as int) =~= p.subrange(0, acc.len() as int));
            assert(vv =~= pv.push(v.last()));
            assert forall|k: int| 0 <= k < idx.len() implies 0 <= #[trigger] idx[k] < items.len()
                && asset_of_item(vv[k], items[idx[k]], m, appid, contextid) by {
                if k < idx0.len() {
                    assert(idx[k] == idx0[k]);
                    assert(vv[k] == pv[k]);
                    assert(items[idx0[k]] == rest[idx0[k]]);
                }
            }
            assert forall|j: int| 0 <= j < items.len() implies (idx.contains(j) <==> item_kept(
                m,
                #[trigger] items[j],
                tradable_only,
            )) by {
                if j < n {
                    assert(items[j] == rest[j]);
                    assert(idx0.contains(j) <==> item_kept(m, rest[j], tradable_only));
                    if idx0.contains(j) {
                        let k = choose|k: int| 0 <= k < idx0.len() && idx0[k] == j;
                        assert(idx[k] == j);
                    }
                    if idx.contains(j) {
                        let k = choose|k: int| 0 <= k < idx.len() && idx[k] == j;
                        if k == idx0.len() {
                            assert(idx[k] == n);
                        } else {
                            assert(idx0[k] == j);
                        }
                    }
                } else {
                    assert(idx[idx0.len() as int] == n);
                }
            }
        } else {
            assert(v == p);
            assert forall|k: int| 0 <= k < idx.len() implies 0 <= #[trigger] idx[k] < items.len()
                && asset_of_item(vv[k], items[idx[k]], m, appid, contextid) by {
                assert(items[idx0[k]] == rest[idx0[k]]);
            }
            assert forall|j: int| 0 <= j < items.len() implies (idx.contains(j) <==> item_kept(
                m,
                #[trigger] items[j],
                tradable_only,
            )) by {
                if j < n {
                    assert(items[j] == rest[j]);
                    assert(idx0.contains(j) <==> item_kept(m, rest[j], tradable_only));
                } else {
                    if idx.contains(j) {
                        let k = choose|k: int| 0 <= k < idx.len() && idx[k] == j;
                        assert(idx0[k] < rest.len());
                    }
                }
            }
        }
        assert forall|j: int| 0 <= j < items.len() implies m.contains_key(
            ((#[trigger] items[j]).0, items[j].1),
        ) by {
            if j < n {
                assert(items[j] == rest[j]);
            }
        }
        idx
    }
}

proof fn lemma_fold_all(
    acc: Seq<Asset>,
    m: Map<ClassInfoAppClass, Arc<ClassInfo>>,
    items: Seq<InventoryItem>,
    appid: AppId,
    contextid: ContextId,
)
    requires
        inventory_fold(Ok(acc), m, items, appid, contextid, false) is Ok,
    ensures
        inventory_fold(Ok(acc), m, items, appid, contextid, false)->Ok_0.len() == acc.len()
            + items.len(),
        forall|k: int|
            0 <= k < acc.len() ==> #[trigger] inventory_fold(
                Ok(acc),
                m,
                items,
                appid,
                contextid,
                false,
            )->Ok_0[k] == acc[k],
        forall|k: int|
            0 <= k < items.len() ==> asset_of_item(
                inventory_fold(Ok(acc), m, items, appid, contextid, false)->Ok_0[acc.len() + k],
                #[trigger] items[k],
                m,
                appid,
                contextid,
            ),
    decreases items.len(),
{
    if items.len() > 0 {
        let rest = items.drop_last();
        let prev = inventory_fold(Ok(acc), m, rest, appid, contextid, false);
        if prev is Err {
            assert(inventory_fold(Ok(acc), m, items, appid, contextid, false) is Err);
        }
        lemma_fold_all(acc, m, rest, appid, contextid);
        let v = inventory_fold(Ok(acc), m, items, appid, contextid, false)->Ok_0;
        let p = prev->Ok_0;
        assert forall|k: int| 0 <= k < items.len() implies asset_of_item(
            v[acc.len() + k],
            #[trigger] items[k],
            m,
            appid,
            contextid,
        ) by {
            if k < rest.len() {
                assert(items[k] == rest[k]);
                assert(v[acc.len() + k] == p[acc.len() + k]);
            }
        }
        assert forall|k: int| 0 <= k < acc.len() implies #[trigger] v[k] == acc[k] by {
            assert(v[k] == p[k]);
        }
    }
}

/// `a` is the raw asset `r` of the inventory of `appid` and `contextid`, with its asset ID and
/// amount, described by `c`.
pub open spec fn asset_of_raw(a: Asset, r: RawAsset, c: Arc<ClassInfo>, appid: AppId, contextid: ContextId) -> bool {
    &&& a.appid == appid
    &&& a.contextid == contextid
    &&& a.assetid == r.assetid
    &&& a.amount == r.amount
    &&& !a.missing
    &&& a.classinfo == c
}

/// An inventory assembled from items and a map of classinfos holds, in order, one asset per
/// item that is kept (every item, or the tradable ones when only tradable items are wanted), with
/// the item's asset ID and amount and its classinfo; with all items wanted, the k-th asset is
/// made of the k-th item.
pub proof fn law_inventory_assets_from_items(
    items: Seq<RawAsset>,
    m: Map<ClassInfoClass, Arc<ClassInfo>>,
    appid: AppId,
    contextid: ContextId,
    tradable_only: bool,
)
    ensures
        inventory_fold(
            Ok(Seq::empty()),
            app_view(m, appid),
            raw_items(items),
            appid,
            contextid,
            tradable_only,
        ) matches Ok(v) ==> {
            &&& exists|idx: Seq<int>|
                {
                    &&& idx.len() == v.len()
                    &&& forall|k1: int, k2: int| 0 <= k1 < k2 < idx.len() ==> idx[k1] < idx[k2]
                    &&& forall|k: int|
                        0 <= k < idx.len() ==> 0 <= #[trigger] idx[k] < items.len()
                            && asset_of_raw(
                            v[k],
                            items[idx[k]],
                            m[(appid, items[idx[k]].classid, items[idx[k]].instanceid)],
                            appid,
                            contextid,
                        )
                    &&& forall|j: int|
                        0 <= j < items.len() ==> (idx.contains(j) <==> (!tradable_only || m[(
                            appid,
                            (#[trigger] items[j]).classid,
                            items[j].instanceid,
                        )].tradable))
                }
            &&& !tradable_only ==> v.len() == items.len() && forall|k: int|
                0 <= k < items.len() ==> asset_of_raw(
                    #[trigger] v[k],
                    items[k],
                    m[(appid, items[k].classid, items[k].instanceid)],
                    appid,
                    contextid,
                )
        },
{
    let mv = app_view(m, appid);
    let its = raw_items(items);
    let r = inventory_fold(Ok(Seq::empty()), mv, its, appid, contextid, tradable_only);
    if r is Ok {
        let v = r->Ok_0;
        let idx = lemma_fold_assets(Seq::empty(), mv, its, appid, contextid, tradable_only);
        assert(v.subrange(0, v.len() as int) =~= v);
        assert forall|k: int| 0 <= k < idx.len() implies 0 <= #[trigger] idx[k] < items.len()
            && asset_of_raw(
            v[k],
            items[idx[k]],
            m[(appid, items[idx[k]].classid, items[idx[k]].instanceid)],
            appid,
            contextid,
        ) by {
            assert(its[idx[k]] == (
                items[idx[k]].classid,
                items[idx[k]].instanceid,
                items[idx[k]].assetid,
                items[idx[k]].amount,
            ));
        }
        assert forall|j: int| 0 <= j < items.len() implies (idx.contains(j) <==> (!tradable_only
            || m[(appid, (#[trigger] items[j]).classid, items[j].instanceid)].tradable)) by {
            assert(its[j] == (items[j].classid, items[j].instanceid, items[j].assetid, items[j].amount));
            assert(idx.contains(j) <==> item_kept(mv, its[j], tradable_only));
        }
        if !tradable_only {
            lemma_fold_all(Seq::empty(), mv, its, appid, contextid);
            assert forall|k: int| 0 <= k < items.len() implies asset_of_raw(
                #[trigger] v[k],
                items[k],
                m[(appid, items[k].classid, items[k].instanceid)],
                appid,
                contextid,
            ) by {
                assert(its[k] == (items[k].classid, items[k].instanceid, items[k].assetid, items[k].amount));
                assert(asset_of_item(v[0 + k], its[k], mv, appid, contextid));
            }
        }
    }
}

/// The raw assets of the pages of an inventory, in order.
pub open spec fn pages_assets(pages: Seq<GetInventoryResponse>) -> Seq<RawAsset>
    decreases pages.len(),
{
    if pages.len() == 0 {
        Seq::empty()
    } else {
        pages_assets(pages.drop_last()) + pages.last().assets@
    }
}

/// The raw assets of the pages of an inventory from the old endpoint, in order.
pub open spec fn old_pages_assets(pages: Seq<GetInventoryOldResponse>) -> Seq<RawAssetOld>
    decreases pages.len(),
{
    if pages.len() == 0 {
        Seq::empty()
    } else {
        old_pages_assets(pages.drop_last()) + pages.last().assets@
    }
}

/// `a` is the raw asset `r` of the inventory of `appid` and `contextid`, with its asset ID and
/// amount.
pub open spec fn asset_keeps_raw(a: Asset, r: RawAsset, appid: AppId, contextid: ContextId) -> bool {
    &&& a.appid == appid
    &&& a.contextid == contextid
    &&& a.assetid == r.assetid
    &&& a.amount == r.amount
    &&& !a.missing
}

proof fn lemma_pages_idx(
    pages: Seq<GetInventoryResponse>,
    appid: AppId,
    contextid: ContextId,
    tradable_only: bool,
) -> (idx: Seq<int>)
    requires
        pages_inventory(pages, appid, contextid, tradable_only) is Ok,
    ensures
        ({
            let v = pages_inventory(pages, appid, contextid, tradable_only)->Ok_0;
            let raws = pages_assets(pages);
            &&& idx.len() == v.len()
            &&& forall|k1: int, k2: int| 0 <= k1 < k2 < idx.len() ==> idx[k1] < idx[k2]
            &&& forall|k: int|
                0 <= k < idx.len() ==> 0 <= #[trigger] idx[k] < raws.len() && asset_keeps_raw(
                    v[k],
                    raws[idx[k]],
                    appid,
                    contextid,
                )
        }),
    decreases pages.len(),
{
    if pages.len() == 0 {
        Seq::empty()
    } else {
        let rest = pages.drop_last();
        let last = pages.last();
        let prev = pages_inventory(rest, appid, contextid, tradable_only);
        if prev is Err {
            lemma_inventory_fold_from_err(
                prev->Err_0,
                last.descriptions@,
                raw_items(last.assets@),
                appid,
                contextid,
                tradable_only,
            );
        }
        let idx0 = lemma_pages_idx(rest, appid, contextid, tradable_only);
        let p = prev->Ok_0;
        let its = raw_items(last.assets@);
        let idx1 = lemma_fold_assets(p, last.descriptions@, its, appid, contextid, tradable_only);
        let v = pages_inventory(pages, appid, contextid, tradable_only)->Ok_0;
        let r0 = pages_assets(rest);
        let raws = pages_assets(pages);
        assert(raws == r0 + last.assets@);
        let off = r0.len() as int;
        let idx = idx0 + idx1.map_values(|x: int| x + off);
        let tail = v.subrange(p.len() as int, v.len() as int);
        assert forall|k: int| 0 <= k < idx.len() implies 0 <= #[trigger] idx[k] < raws.len()
            && asset_keeps_raw(v[k], raws[idx[k]], appid, contextid) by {
            if k < idx0.len() {
                assert(v.subrange(0, p.len() as int)[k] == v[k]);
                assert(idx[k] == idx0[k]);
                assert(raws[idx0[k]] == r0[idx0[k]]);
            } else {
                let k1 = k - idx0.len();
                assert(idx[k] == idx1[k1] + off);
                assert(tail[k1] == v[k]);
                assert(raws[idx1[k1] + off] == last.assets@[idx1[k1]]);
                assert(its[idx1[k1]] == (
                    last.assets@[idx1[k1]].classid,
                    last.assets@[idx1[k1]].instanceid,
                    last.assets@[idx1[k1]].assetid,
                    last.assets@[idx1[k1]].amount,
                ));
                assert(asset_of_item(tail[k1], its[idx1[k1]], last.descriptions@, appid, contextid));
            }
        }
        assert forall|k1: int, k2: int| 0 <= k1 < k2 < idx.len() implies idx[k1] < idx[k2] by {
            if k2 < idx0.len() {
            } else if k1 < idx0.len() {
                assert(idx[k1] == idx0[k1]);
                assert(idx[k2] == idx1[k2 - idx0.len()] + off);
            } else {
                assert(idx[k1] == idx1[k1 - idx0.len()] + off);
                assert(idx[k2] == idx1[k2 - idx0.len()] + off);
            }
        }
        idx
    }
}

proof fn lemma_pages_all(pages: Seq<GetInventoryResponse>, appid: AppId, contextid: ContextId)
    requires
        pages_inventory(pages, appid, contextid, false) is Ok,
    ensures
        pages_inventory(pages, appid, contextid, false)->Ok_0.len() == pages_assets(pages).len(),
        forall|k: int|
            0 <= k < pages_assets(pages).len() ==> asset_keeps_raw(
                pages_inventory(pages, appid, contextid, false)->Ok_0[k],
                #[trigger] pages_assets(pages)[k],
                appid,
                contextid,
            ),
    decreases pages.len(),
{
    if pages.len() > 0 {
        let rest = pages.drop_last();
        let last = pages.last();
        let prev = pages_inventory(rest, appid, contextid, false);
        if prev is Err {
            lemma_inventory_fold_from_err(
                prev->Err_0,
                last.descriptions@,
                raw_items(last.assets@),
                appid,
                contextid,
                false,
            );
        }
        lemma_pages_all(rest, appid, contextid);
        let p = prev->Ok_0;
        let its = raw_items(last.assets@);
        lemma_fold_all(p, last.descriptions@, its, appid, contextid);
        let v = pages_inventory(pages, appid, contextid, false)->Ok_0;
        let r0 = pages_assets(rest);
        let raws = pages_assets(pages);
        assert(raws == r0 + last.assets@);
        assert forall|k: int| 0 <= k < raws.len() implies asset_keeps_raw(
            v[k],
            #[trigger] raws[k],
            appid,
            contextid,
        ) by {
            if k < r0.len() {
                assert(raws[k] == r0[k]);
                assert(v[k] == p[k]);
            } else {
                let j = k - r0.len();
                assert(raws[k] == last.assets@[j]);
                assert(its[j] == (
                    last.assets@[j].classid,
                    last.assets@[j].instanceid,
                    last.assets@[j].assetid,
                    last.assets@[j].amount,
                ));
                assert(asset_of_item(v[p.len() + j], its[j], last.descriptions@, appid, contextid));
            }
        }
    }
}

/// An inventory assembled from pages holds, in order, assets made of the raw assets of the
/// pages, each with its asset ID and amount; with all items wanted, the k-th asset is made of
/// the k-th raw asset.
pub proof fn law_inventory_pages_keep_amounts(
    pages: Seq<GetInventoryResponse>,
    appid: AppId,
    contextid: ContextId,
    tradable_only: bool,
)
    ensures
        pages_inventory(pages, appid, contextid, tradable_only) matches Ok(v) ==> {
            &&& exists|idx: Seq<int>|
                {
                    &&& idx.len() == v.len()
                    &&& forall|k1: int, k2: int| 0 <= k1 < k2 < idx.len() ==> idx[k1] < idx[k2]
                    &&& forall|k: int|
                        0 <= k < idx.len() ==> 0 <= #[trigger] idx[k] < pages_assets(pages).len()
                            && asset_keeps_raw(v[k], pages_assets(pages)[idx[k]], appid, contextid)
                }
            &&& !tradable_only ==> v.len() == pages_assets(pages).len() && forall|k: int|
                0 <= k < v.len() ==> asset_keeps_raw(
                    #[trigger] v[k],
                    pages_assets(pages)[k],
                    appid,
                    contextid,
                )
        },
{
    if pages_inventory(pages, appid, contextid, tradable_only) is Ok {
        let idx = lemma_pages_idx(pages, appid, contextid, tradable_only);
        if !tradable_only {
            lemma_pages_all(pages, appid, contextid);
            let v = pages_inventory(pages, appid, contextid, tradable_only)->Ok_0;
            assert forall|k: int| 0 <= k < v.len() implies asset_keeps_raw(
                #[trigger] v[k],
                pages_assets(pages)[k],
                appid,
                contextid,
            ) by {
                assert(asset_keeps_raw(v[k], pages_assets(pages)[k], appid, contextid));
            }
        }
    }
}

proof fn lemma_old_pages_all(pages: Seq<GetInventoryOldResponse>, appid: AppId, contextid: ContextId)
    requires
        old_pages_inventory(pages, appid, contextid) is Ok,
    ensures
        old_pages_inventory(pages, appid, contextid)->Ok_0.len() == old_pages_assets(pages).len(),
        forall|k: int|
            0 <= k < old_pages_assets(pages).len() ==> {
                let a = old_pages_inventory(pages, appid, contextid)->Ok_0[k];
                let r = #[trigger] old_pages_assets(pages)[k];
                a.appid == appid && a.contextid == contextid && a.assetid == r.assetid && a.amount
                    == r.amount && !a.missing
            },
    decreases pages.len(),
{
    if pages.len() > 0 {
        let rest = pages.drop_last();
        let last = pages.last();
        let prev = old_pages_inventory(rest, appid, contextid);
        if prev is Err {
            lemma_inventory_fold_from_err(
                prev->Err_0,
                last.descriptions@,
                old_items(last.assets@),
                appid,
                contextid,
                false,
            );
        }
        lemma_old_pages_all(rest, appid, contextid);
        let p = prev->Ok_0;
        let its = old_items(last.assets@);
        lemma_fold_all(p, last.descriptions@, its, appid, contextid);
        let v = old_pages_inventory(pages, appid, contextid)->Ok_0;
        let r0 = old_pages_assets(rest);
        let raws = old_pages_assets(pages);
        assert(raws == r0 + last.assets@);
        assert forall|k: int| 0 <= k < raws.len() implies {
            let a = v[k];
            let r = #[trigger] raws[k];
            a.appid == appid && a.contextid == contextid && a.assetid == r.assetid && a.amount
                == r.amount && !a.missing
        } by {
            if k < r0.len() {
                assert(raws[k] == r0[k]);
                assert(v[k] == p[k]);
            } else {
                let j = k - r0.len();
                assert(raws[k] == last.assets@[j]);
                assert(its[j] == (
                    last.assets@[j].classid,
                    last.assets@[j].instanceid,
                    last.assets@[j].assetid,
                    last.assets@[j].amount,
                ));
                assert(asset_of_item(v[p.len() + j], its[j], last.descriptions@, appid, contextid));
            }
        }
    }
}

/// An inventory assembled from pages of the old endpoint holds one asset per raw asset, in
/// order, each with the raw asset's asset ID and amount.
pub proof fn law_old_inventory_keeps_amounts(
    pages: Seq<GetInventoryOldResponse>,
    appid: AppId,
    contextid: ContextId,
)
    ensures
        old_pages_inventory(pages, appid, contextid) matches Ok(v) ==> v.len() == old_pages_assets(
            pages,
        ).len() && forall|k: int|
            0 <= k < v.len() ==> (#[trigger] v[k]).appid == appid && v[k].contextid == contextid
                && v[k].assetid == old_pages_assets(pages)[k].assetid && v[k].amount
                == old_pages_assets(pages)[k].amount && !v[k].missing,
{
    if old_pages_inventory(pages, appid, contextid) is Ok {
        lemma_old_pages_all(pages, appid, contextid);
        let v = old_pages_inventory(pages, appid, contextid)->Ok_0;
        assert forall|k: int| 0 <= k < v.len() implies (#[trigger] v[k]).appid == appid
            && v[k].contextid == contextid && v[k].assetid == old_pages_assets(pages)[k].assetid
            && v[k].amount == old_pages_assets(pages)[k].amount && !v[k].missing by {
            let r = old_pages_assets(pages)[k];
        }
    }
}

// ---------------------------------------------------------------------------------------------
// Classinfos.
// ---------------------------------------------------------------------------------------------

/// The classes of `classes` of the app `appid`, by class ID and instance ID, in order.
pub open spec fn app_classes(classes: Seq<ClassInfoClass>, appid: AppId) -> Seq<ClassInfoAppClass>
    decreases classes.len(),
{
    if classes.len() == 0 {
        Seq::empty()
    } else if classes.last().0 == appid {
        app_classes(classes.drop_last(), appid).push((classes.last().1, classes.last().2))
    } else {
        app_classes(classes.drop_last(), appid)
    }
}

/// The apps of `classes`, each once, in the order they first occur.
pub open spec fn apps_of(classes: Seq<ClassInfoClass>) -> Seq<AppId>
    decreases classes.len(),
{
    if classes.len() == 0 {
        Seq::empty()
    } else if apps_of(classes.drop_last()).contains(classes.last().0) {
        apps_of(classes.drop_last())
    } else {
        apps_of(classes.drop_last()).push(classes.last().0)
    }
}

/// Groups classes by app: for each app, in the order the apps first occur, its classes in
/// order.
pub fn group_by_app(classes: &Vec<ClassInfoClass>) -> (res: Vec<(AppId, Vec<ClassInfoAppClass>)>)
    ensures
        res@.len() == apps_of(classes@).len(),
        forall|k: int|
            0 <= k < res@.len() ==> (#[trigger] res@[k]).0 == apps_of(classes@)[k] && res@[k].1@
                == app_classes(classes@, res@[k].0),
{
    let mut groups: Vec<(AppId, Vec<ClassInfoAppClass>)> = Vec::new();
    let mut i: usize = 0;
    while i < classes.len()
        invariant
            i <= classes@.len(),
            groups@.len() == apps_of(classes@.take(i as int)).len(),
            forall|k: int|
                0 <= k < groups@.len() ==> (#[trigger] groups@[k]).0 == apps_of(
                    classes@.take(i as int),
                )[k] && groups@[k].1@ == app_classes(classes@.take(i as int), groups@[k].0),
            apps_of(classes@.take(i as int)).no_duplicates(),
        decreases classes@.len() - i,
    {
        let c = classes[i];
        let ghost prefix = classes@.take(i as int);
        let ghost apps = apps_of(prefix);
        proof {
            assert(classes@.take(i + 1).drop_last() =~= prefix);
            assert(classes@.take(i + 1).last() == c);
        }
        let mut j: usize = 0;
        while j < groups.len() && groups[j].0 != c.0
            invariant
                j <= groups@.len(),
                forall|k: int| 0 <= k < j ==> groups@[k].0 != c.0,
            decreases groups@.len() - j,
        {
            j = j + 1;
        }
        let ghost before = groups@;
        if j < groups.len() {
            let mut g = groups.remove(j);
            g.1.push((c.1, c.2));
            groups.insert(j, g);
            proof {
                assert(apps[j as int] == c.0);
                assert(apps.contains(c.0));
                assert(apps_of(classes@.take(i + 1)) == apps);
                assert forall|k: int| 0 <= k < groups@.len() implies (#[trigger] groups@[k]).0
                    == apps_of(classes@.take(i + 1))[k] && groups@[k].1@ == app_classes(
                    classes@.take(i + 1),
                    groups@[k].0,
                ) by {
                    if k != j {
                        assert(groups@[k] == before[k]);
                        assert(apps[k] != c.0);
                    }
                }
            }
        } else {
            let mut v: Vec<ClassInfoAppClass> = Vec::new();
            v.push((c.1, c.2));
            groups.push((c.0, v));
            proof {
                assert(!apps.contains(c.0)) by {
                    if apps.contains(c.0) {
                        let k = choose|k: int| 0 <= k < apps.len() && apps[k] == c.0;
                        assert(before[k].0 == c.0);
                    }
                }
                assert(apps_of(classes@.take(i + 1)) == apps.push(c.0));
                assert(app_classes(prefix, c.0).len() == 0) by {
                    lemma_app_classes_absent(prefix, c.0);
                }
                assert forall|k: int| 0 <= k < groups@.len() implies (#[trigger] groups@[k]).0
                    == apps_of(classes@.take(i + 1))[k] && groups@[k].1@ == app_classes(
                    classes@.take(i + 1),
                    groups@[k].0,
                ) by {
                    if k < before.len() {
                        assert(groups@[k] == before[k]);
                        assert(apps[k] != c.0);
                    } else {
                        assert(groups@[k].1@ =~= app_classes(prefix, c.0).push((c.1, c.2)));
                    }
                }
            }
        }
        i = i + 1;
    }
    assert(classes@.take(classes@.len() as int) =~= classes@);
    groups
}

proof fn lemma_app_classes_absent(classes: Seq<ClassInfoClass>, appid: AppId)
    requires
        !apps_of(classes).contains(appid),
    ensures
        app_classes(classes, appid).len() == 0,
    decreases classes.len(),
{
    if classes.len() > 0 {
        let rest = classes.drop_last();
        if apps_of(rest).contains(appid) {
            let k = choose|k: int| 0 <= k < apps_of(rest).len() && apps_of(rest)[k] == appid;
            if apps_of(rest).contains(classes.last().0) {
                assert(apps_of(classes)[k] == appid);
            } else {
                assert(apps_of(classes)[k] == appid);
            }
        }
        if classes.last().0 == appid {
            if apps_of(rest).contains(appid) {
            } else {
                assert(apps_of(classes).last() == appid);
            }
        }
        lemma_app_classes_absent(rest, appid);
    }
}

/// The number of classes asked for in one request for classinfos.
pub const CLASSINFO_CHUNK_SIZE: usize = 100;

/// `s` split into chunks of `size`, in order; the last one may be shorter.
pub open spec fn chunks_spec(s: Seq<ClassInfoAppClass>, size: nat) -> Seq<Seq<ClassInfoAppClass>>
    decreases s.len(),
{
    if s.len() == 0 || size == 0 {
        Seq::empty()
    } else if s.len() <= size {
        seq![s]
    } else {
        seq![s.take(size as int)] + chunks_spec(s.skip(size as int), size)
    }
}

/// Splits classes into chunks of at most `size`, in order.
pub fn chunk_classes(classes: &Vec<ClassInfoAppClass>, size: usize) -> (res: Vec<Vec<ClassInfoAppClass>>)
    requires
        size > 0,
    ensures
        res@.map_values(|c: Vec<ClassInfoAppClass>| c@) == chunks_spec(classes@, size as nat),
{
    let mut chunks: Vec<Vec<ClassInfoAppClass>> = Vec::new();
    let mut start: usize = 0;
    proof {
        assert(classes@.skip(0) =~= classes@);
        assert(chunks@.map_values(|c: Vec<ClassInfoAppClass>| c@) + chunks_spec(
            classes@.skip(0),
            size as nat,
        ) =~= chunks_spec(classes@, size as nat));
    }
    while start < classes.len()
        invariant
            size > 0,
            start <= classes@.len(),
            chunks@.map_values(|c: Vec<ClassInfoAppClass>| c@) + chunks_spec(
                classes@.skip(start as int),
                size as nat,
            ) == chunks_spec(classes@, size as nat),
        decreases classes@.len() - start,
    {
        let end = if classes.len() - start > size {
            start + size
        } else {
            classes.len()
        };
        let mut chunk: Vec<ClassInfoAppClass> = Vec::new();
        let mut i = start;
        while i < end
            invariant
                start <= i <= end <= classes@.len(),
                chunk@ == classes@.subrange(start as int, i as int),
            decreases end - i,
        {
            chunk.push(classes[i]);
            proof {
                assert(classes@.subrange(start as int, i + 1) =~= classes@.subrange(
                    start as int,
                    i as int,
                ).push(classes@[i as int]));
            }
            i = i + 1;
        }
        let ghost before = chunks@.map_values(|c: Vec<ClassInfoAppClass>| c@);
        let ghost rest = classes@.skip(start as int);
        chunks.push(chunk);
        proof {
            assert(chunks@.map_values(|c: Vec<ClassInfoAppClass>| c@) =~= before.push(
                classes@.subrange(start as int, end as int),
            ));
            if rest.len() <= size {
                assert(end == classes@.len());
                assert(rest =~= classes@.subrange(start as int, end as int));
                assert(classes@.skip(end as int) =~= Seq::<ClassInfoAppClass>::empty());
                assert(chunks_spec(rest, size as nat) == seq![rest]);
            } else {
                assert(rest.take(size as int) =~= classes@.subrange(start as int, end as int));
                assert(rest.skip(size as int) =~= classes@.skip(end as int));
            }
            assert(before.push(classes@.subrange(start as int, end as int)) + chunks_spec(
                classes@.skip(end as int),
                size as nat,
            ) =~= before + chunks_spec(rest, size as nat));
        }
        start = end;
    }
    proof {
        assert(classes@.skip(start as int) =~= Seq::<ClassInfoAppClass>::empty());
        assert(chunks@.map_values(|c: Vec<ClassInfoAppClass>| c@) =~= chunks_spec(
            classes@,
            size as nat,
        ));
    }
    chunks
}


// ---------------------------------------------------------------------------------------------
// Requests for classinfos.
// ---------------------------------------------------------------------------------------------

/// The query pairs that name the classes of a request for classinfos: `classid{i}` for each,
/// and `instanceid{i}` for those with an instance ID.
pub open spec fn class_params(classes: Seq<ClassInfoAppClass>) -> Seq<(Seq<char>, Seq<char>)>
    decreases classes.len(),
{
    if classes.len() == 0 {
        Seq::empty()
    } else {
        let i = (classes.len() - 1) as nat;
        let c = classes.last();
        let with_class = class_params(classes.drop_last()).push(
            ("classid"@ + decimal(i), decimal(c.0 as nat)),
        );
        match c.1 {
            Some(instanceid) => with_class.push(("instanceid"@ + decimal(i), decimal(instanceid as nat))),
            None => with_class,
        }
    }
}

/// The query pair of a credential.
pub open spec fn credential_param(c: Credential) -> (Seq<char>, Seq<char>) {
    match c {
        Credential::AccessToken(t) => ("access_token"@, t@),
        Credential::Key(k) => ("key"@, k@),
    }
}

/// The query of a request for the classinfos of `classes` of the app `appid`.
pub open spec fn classinfo_query_spec(
    credential: Credential,
    appid: AppId,
    language: Seq<char>,
    classes: Seq<ClassInfoAppClass>,
) -> Seq<(Seq<char>, Seq<char>)> {
    seq![
        credential_param(credential),
        ("appid"@, decimal(appid as nat)),
        ("language"@, language),
        ("class_count"@, decimal(classes.len())),
    ] + class_params(classes)
}

/// A string of the characters of `prefix` followed by the decimal digits of `n`.
fn prefixed_decimal(prefix: &str, n: u64) -> (res: String)
    ensures
        res@ == prefix@ + decimal(n as nat),
{
    let mut v: Vec<char> = Vec::new();
    push_str(&mut v, prefix);
    let d = crate::text::decimal_chars(n);
    crate::text::push_all(&mut v, d.as_slice());
    string_of(v.as_slice())
}

/// Builds the query of a request for the classinfos of `classes` of the app `appid`, in the
/// language `language`.
pub fn classinfo_query(
    credential: &Credential,
    appid: AppId,
    language: &str,
    classes: &Vec<ClassInfoAppClass>,
) -> (res: Vec<(String, String)>)
    ensures
        res.deep_view() == classinfo_query_spec(*credential, appid, language@, classes@),
{
    let mut query: Vec<(String, String)> = Vec::new();
    match credential {
        Credential::AccessToken(t) => query.push((String::from_str("access_token"), t.clone())),
        Credential::Key(k) => query.push((String::from_str("key"), k.clone())),
    }
    query.push((String::from_str("appid"), decimal_string(appid as u64)));
    query.push((String::from_str("language"), String::from_str(language)));
    query.push((String::from_str("class_count"), decimal_string(classes.len() as u64)));
    proof {
        assert(query.deep_view() =~= seq![
            credential_param(*credential),
            ("appid"@, decimal(appid as nat)),
            ("language"@, language@),
            ("class_count"@, decimal(classes@.len())),
        ]);
        assert(classes@.take(0) =~= Seq::<ClassInfoAppClass>::empty());
    }
    let ghost head = query.deep_view();
    let mut i: usize = 0;
    while i < classes.len()
        invariant
            i <= classes@.len(),
            query.deep_view() == head + class_params(classes@.take(i as int)),
        decreases classes@.len() - i,
    {
        let c = classes[i];
        let ghost before = query.deep_view();
        let class_key = prefixed_decimal("classid", i as u64);
        let class_value = decimal_string(c.0);
        query.push((class_key, class_value));
        let ghost with_class = query.deep_view();
        proof {
            assert(with_class =~= before.push(("classid"@ + decimal(i as nat), decimal(c.0 as nat))));
        }
        match c.1 {
            Some(instanceid) => {
                let inst_key = prefixed_decimal("instanceid", i as u64);
                let inst_value = decimal_string(instanceid);
                query.push((inst_key, inst_value));
                proof {
                    assert(query.deep_view() =~= with_class.push(
                        ("instanceid"@ + decimal(i as nat), decimal(instanceid as nat)),
                    ));
                }
            },
            None => {},
        }
        proof {
            let t = classes@.take(i + 1);
            assert(t.drop_last() =~= classes@.take(i as int));
            assert(t.last() == c);
            assert((t.len() - 1) as nat == i as nat);
            assert(query.deep_view() =~= head + class_params(t));
        }
        i = i + 1;
    }
    assert(classes@.take(classes@.len() as int) =~= classes@);
    query
}

/// The entries of the classinfos that could be read, keyed under the app `appid`, in order.
pub open spec fn read_classinfo_entries(
    appid: AppId,
    s: Seq<(ClassInfoAppClass, Option<Arc<ClassInfo>>)>,
) -> Seq<(ClassInfoClass, Arc<ClassInfo>)>
    decreases s.len(),
{
    if s.len() == 0 {
        Seq::empty()
    } else {
        let prev = read_classinfo_entries(appid, s.drop_last());
        match s.last().1 {
            Some(c) => prev.push(((appid, s.last().0.0, s.last().0.1), c)),
            None => prev,
        }
    }
}

/// Keys the classinfos of the app `appid` that could be read by app, class ID and instance
/// ID; those that could not be read (Steam sometimes sends empty ones) are left out.
pub fn app_classinfo_map(appid: AppId, parsed: Vec<(ClassInfoAppClass, Option<Arc<ClassInfo>>)>) -> (res:
    ClassInfoMap)
    ensures
        res.entry_list() == read_classinfo_entries(appid, parsed@),
{
    let ghost all = parsed@;
    let mut rest = parsed;
    let mut entries: Vec<(ClassInfoClass, Arc<ClassInfo>)> = Vec::new();
    let ghost mut done: Seq<(ClassInfoAppClass, Option<Arc<ClassInfo>>)> = Seq::empty();
    while rest.len() > 0
        invariant
            all == done + rest@,
            entries@ == read_classinfo_entries(appid, done),
        decreases rest@.len(),
    {
        let (class, classinfo) = rest.remove(0);
        let ghost item = (class, classinfo);
        proof {
            assert(done.push(item).drop_last() =~= done);
            assert(all == done.push(item) + rest@);
        }
        match classinfo {
            Some(c) => {
                entries.push(((appid, class.0, class.1), c));
            },
            None => {},
        }
        proof {
            done = done.push(item);
        }
    }
    assert(done =~= all);
    EntryMap::from_entries(entries)
}

// ---------------------------------------------------------------------------------------------
// Receipts.
// ---------------------------------------------------------------------------------------------

/// The raw asset that a receipt asset stands for.
pub open spec fn receipt_raw(a: RawReceiptAsset) -> RawAsset {
    RawAsset {
        appid: a.appid,
        contextid: a.contextid,
        assetid: a.assetid,
        amount: a.amount,
        missing: false,
        classid: a.classid,
        instanceid: a.instanceid,
    }
}

fn receipt_raws(assets: &Vec<RawReceiptAsset>) -> (res: Vec<RawAsset>)
    ensures
        res@ == assets@.map_values(|a: RawReceiptAsset| receipt_raw(a)),
{
    let mut res: Vec<RawAsset> = Vec::new();
    let mut i: usize = 0;
    while i < assets.len()
        invariant
            i <= assets@.len(),
            res@ == assets@.take(i as int).map_values(|a: RawReceiptAsset| receipt_raw(a)),
        decreases assets@.len() - i,
    {
        let a = assets[i];
        res.push(
            RawAsset {
                appid: a.appid,
                contextid: a.contextid,
                assetid: a.assetid,
                amount: a.amount,
                missing: false,
                classid: a.classid,
                instanceid: a.instanceid,
            },
        );
        proof {
            assert(assets@.take(i + 1) =~= assets@.take(i as int).push(a));
            assert(assets@.take(i + 1).map_values(|a: RawReceiptAsset| receipt_raw(a))
                =~= assets@.take(i as int).map_values(|a: RawReceiptAsset| receipt_raw(a)).push(
                receipt_raw(a),
            ));
        }
        i = i + 1;
    }
    assert(assets@.take(assets@.len() as int) =~= assets@);
    res
}

/// The classes of the items of a receipt, each once.
pub fn receipt_classes(assets: &Vec<RawReceiptAsset>) -> (res: Vec<ClassInfoClass>)
    ensures
        res@.no_duplicates(),
        forall|c: ClassInfoClass|
            res@.contains(c) <==> classes_of(
                assets@.map_values(|a: RawReceiptAsset| receipt_raw(a)),
            ).contains(c),
{
    let raws = receipt_raws(assets);
    asset_classes(&raws)
}

/// Combines the items of a receipt with their classinfos, failing on the first missing one.
pub fn receipt_assets(assets: &Vec<RawReceiptAsset>, map: &ClassInfoMap) -> (res: Result<
    Vec<Asset>,
    MissingClassInfoError,
>)
    ensures
        combine_ok(
            match res {
                Ok(v) => Ok(v@),
                Err(e) => Err(e),
            },
            assets@.map_values(|a: RawReceiptAsset| receipt_raw(a)),
            map@,
        ),
{
    let raws = receipt_raws(assets);
    collect_assets(&raws, map)
}

// ---------------------------------------------------------------------------------------------
// Files of classinfos.
// ---------------------------------------------------------------------------------------------

/// The name of the file of a classinfo: `{appid}_{classid}_{instanceid}.json`, with 0 for no
/// instance ID.
pub open spec fn classinfo_file_name_spec(class: ClassInfoClass) -> Seq<char> {
    decimal(class.0 as nat) + "_"@ + decimal(class.1 as nat) + "_"@ + decimal(
        match class.2 {
            Some(i) => i as nat,
            None => 0,
        },
    ) + ".json"@
}

/// Builds the name of the file of a classinfo.
pub fn classinfo_file_name(class: ClassInfoClass) -> (res: String)
    ensures
        res@ == classinfo_file_name_spec(class),
{
    let mut v: Vec<char> = Vec::new();
    let a = crate::text::decimal_chars(class.0 as u64);
    crate::text::push_all(&mut v, a.as_slice());
    push_str(&mut v, "_");
    let b = crate::text::decimal_chars(class.1);
    crate::text::push_all(&mut v, b.as_slice());
    push_str(&mut v, "_");
    let c = crate::text::decimal_chars(
        match class.2 {
            Some(i) => i,
            None => 0,
        },
    );
    crate::text::push_all(&mut v, c.as_slice());
    push_str(&mut v, ".json");
    string_of(v.as_slice())
}

/// A separator of path components: `/`, or `\` where the platform also takes it.
pub open spec fn is_path_sep(c: char) -> bool {
    c == '/' || c == '\\'
}

/// A directory that starts with a verbatim prefix (`\\?\`, separators of either kind).
pub open spec fn has_verbatim_prefix(dir: Seq<char>) -> bool {
    dir.len() >= 4 && is_path_sep(dir[0]) && is_path_sep(dir[1]) && dir[2] == '?'
        && is_path_sep(dir[3])
}

/// A file name that joins to a directory as one plain component: not empty, no separator and
/// no drive colon, and not made of dots alone.
pub open spec fn is_plain_file_name(name: Seq<char>) -> bool {
    &&& name.len() > 0
    &&& forall|i: int| 0 <= i < name.len() ==> !is_path_sep(#[trigger] name[i]) && name[i] != ':'
    &&& exists|i: int| 0 <= i < name.len() && #[trigger] name[i] != '.'
}

/// What holds of `res`, the path of the file `name` in the directory `dir`, on every platform:
/// it ends with the name; unless the directory has a verbatim prefix, it is the directory, at
/// most one separator and the name; no separator follows an empty directory or one that ends
/// in `/`, and one always follows a directory that ends in neither a separator nor `:`.
pub open spec fn joined_path(dir: Seq<char>, name: Seq<char>, res: Seq<char>) -> bool {
    &&& res.len() >= name.len()
    &&& res.subrange(res.len() - name.len(), res.len() as int) == name
    &&& !has_verbatim_prefix(dir) ==> {
        &&& res == dir + name || exists|sep: char| is_path_sep(sep) && res == dir + seq![sep] + name
        &&& (dir.len() == 0 || dir.last() == '/') ==> res == dir + name
        &&& (dir.len() > 0 && !is_path_sep(dir.last()) && dir.last() != ':') ==> exists|sep: char|
            is_path_sep(sep) && res == dir + seq![sep] + name
    }
}

/// Joins a file name to a directory path.
///
/// Calls `Path::join` of std (which pushes the name onto the directory) and `to_string_lossy`,
/// which changes nothing in a path made of valid UTF-8. std documents that pushing a relative
/// path extends the directory, with a separator where the directory does not already end in
/// one. The contract states what holds on every platform (`joined_path`). Left unsaid: which
/// separator comes (`/`, or `\` on Windows, where a bare drive such as `C:` takes none), and,
/// for a directory with a verbatim prefix, which std documents as normalized on a push, anything
/// but that the result ends with the name.
#[verifier::external_body]
fn join_path(dir: &str, name: &str) -> (res: String)
    requires
        is_plain_file_name(name@),
    ensures
        joined_path(dir@, name@, res@),
{
    std::path::Path::new(dir).join(name).to_string_lossy().into_owned()
}

/// The path of the file of a classinfo in the directory `data_directory`.
pub fn get_classinfo_file_path(class: ClassInfoClass, data_directory: &str) -> (res: String)
    ensures
        joined_path(data_directory@, classinfo_file_name_spec(class), res@),
{
    let name = classinfo_file_name(class);
    proof {
        reveal_strlit("_");
        reveal_strlit(".json");
        crate::text::lemma_decimal_digits(class.0 as nat);
        crate::text::lemma_decimal_digits(class.1 as nat);
        crate::text::lemma_decimal_digits(
            match class.2 {
                Some(i) => i as nat,
                None => 0,
            },
        );
        assert(name@[0] == decimal(class.0 as nat)[0]);
        assert(name@[0] != '.');
    }
    join_path(data_directory, name.as_str())
}

/// The classes of chunks put back together, in order.
pub open spec fn concat_chunks(ch: Seq<Seq<ClassInfoAppClass>>) -> Seq<ClassInfoAppClass>
    decreases ch.len(),
{
    if ch.len() == 0 {
        Seq::empty()
    } else {
        ch[0] + concat_chunks(ch.drop_first())
    }
}

/// The chunks of a list of classes hold, in order, exactly its classes, and each holds between
/// one and `size` of them: no class is asked for twice or left out.
pub proof fn law_chunks_cover(s: Seq<ClassInfoAppClass>, size: nat)
    requires
        size > 0,
    ensures
        concat_chunks(chunks_spec(s, size)) == s,
        forall|k: int|
            0 <= k < chunks_spec(s, size).len() ==> 0 < (#[trigger] chunks_spec(s, size)[k]).len()
                <= size,
    decreases s.len(),
{
    let ch = chunks_spec(s, size);
    if s.len() == 0 {
        assert(s =~= Seq::<ClassInfoAppClass>::empty());
    } else if s.len() <= size {
        assert(ch == seq![s]);
        assert(ch.drop_first() =~= Seq::<Seq<ClassInfoAppClass>>::empty());
        assert(concat_chunks(ch) == ch[0] + concat_chunks(ch.drop_first()));
        assert(s + Seq::<ClassInfoAppClass>::empty() =~= s);
    } else {
        let head = s.take(size as int);
        let tail = s.skip(size as int);
        law_chunks_cover(tail, size);
        assert(ch == seq![head] + chunks_spec(tail, size));
        assert(ch[0] == head);
        assert(ch.drop_first() =~= chunks_spec(tail, size));
        assert(concat_chunks(ch) == ch[0] + concat_chunks(ch.drop_first()));
        assert(head + tail =~= s);
        assert forall|k: int| 0 <= k < ch.len() implies 0 < (#[trigger] ch[k]).len() <= size by {
            if k > 0 {
                assert(ch[k] == chunks_spec(tail, size)[k - 1]);
            }
        }
    }
}

} // verus!
