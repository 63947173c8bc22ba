//! The decisions of the trade offer manager: which offers may be acted on, how an offer's state
//! follows from an action, and how the results of requests are trimmed and merged.
use vstd::prelude::*;
use crate::enums::{ConfirmationType, OfferFilter, TradeOfferState};
use crate::error::{Error, ParameterError};
use crate::request::GetTradeOffersOptions;
use crate::response::{RawTradeOffer, TradeOffer};
use crate::time::time_from_secs;
use crate::types::{ServerTime, TradeId, TradeOfferId};

verus! {

/// The reply to accepting an offer.
#[derive(Debug, Clone)]
pub struct AcceptedOffer {
    /// The ID of the trade, once the offer went through.
    pub tradeid: Option<TradeId>,
    /// Whether the acceptance has to be confirmed on the mobile app.
    pub needs_mobile_confirmation: bool,
    /// Whether the acceptance has to be confirmed by email.
    pub needs_email_confirmation: bool,
    /// The domain of the email address, when an email confirmation is needed.
    pub email_domain: Option<String>,
}

impl AcceptedOffer {
    /// Whether the acceptance needs a confirmation, on the mobile app or by email.
    pub fn needs_confirmation(&self) -> (res: bool)
        ensures
            res == (self.needs_mobile_confirmation || self.needs_email_confirmation),
    {
        self.needs_mobile_confirmation || self.needs_email_confirmation
    }
}

/// The reply to sending an offer.
#[derive(Debug, Clone)]
pub struct SentOffer {
    /// The ID of the new offer.
    pub tradeofferid: TradeOfferId,
    /// Whether the offer has to be confirmed on the mobile app.
    pub needs_mobile_confirmation: bool,
    /// Whether the offer has to be confirmed by email.
    pub needs_email_confirmation: bool,
    /// The domain of the email address, when an email confirmation is needed.
    pub email_domain: Option<String>,
}

/// A mobile confirmation.
#[derive(Debug, Clone)]
pub struct Confirmation {
    /// The ID of the confirmation.
    pub id: u64,
    /// The key of the confirmation.
    pub nonce: String,
    /// The ID of what the confirmation is for: the trade offer, for trade confirmations.
    pub creator_id: u64,
    /// What the confirmation is for.
    pub conf_type: ConfirmationType,
}

// ---------------------------------------------------------------------------------------------
// Acting on offers.
// ---------------------------------------------------------------------------------------------

/// Checks that `offer` may be accepted: it must not be ours, and it must be active.
pub fn check_accept(offer: &TradeOffer) -> (res: Result<(), Error>)
    ensures
        offer.is_our_offer ==> res == Err::<(), Error>(
            Error::Parameter(ParameterError::CannotAcceptOfferWeCreated),
        ),
        !offer.is_our_offer && offer.trade_offer_state != TradeOfferState::Active ==> res == Err::<
            (),
            Error,
        >(
            Error::Parameter(
                ParameterError::CannotAcceptOfferThatIsNotActive(offer.trade_offer_state),
            ),
        ),
        !offer.is_our_offer && offer.trade_offer_state == TradeOfferState::Active ==> res is Ok,
{
    if offer.is_our_offer {
        return Err(Error::Parameter(ParameterError::CannotAcceptOfferWeCreated));
    }
    if offer.trade_offer_state != TradeOfferState::Active {
        return Err(
            Error::Parameter(
                ParameterError::CannotAcceptOfferThatIsNotActive(offer.trade_offer_state),
            ),
        );
    }
    Ok(())
}

/// The offer as it stands once it was accepted with the reply `accepted`: accepted, unless the
/// acceptance still has to be confirmed; its other fields are kept.
pub fn after_accept(offer: &mut TradeOffer, accepted: &AcceptedOffer)
    ensures
        final(offer).trade_offer_state == if accepted.needs_mobile_confirmation
            || accepted.needs_email_confirmation {
            old(offer).trade_offer_state
        } else {
            TradeOfferState::Accepted
        },
        same_but_state(*final(offer), *old(offer)),
{
    if !accepted.needs_confirmation() {
        offer.trade_offer_state = TradeOfferState::Accepted;
    }
}

/// Checks that `offer` may be cancelled: it must be ours.
pub fn check_cancel(offer: &TradeOffer) -> (res: Result<(), Error>)
    ensures
        !offer.is_our_offer ==> res == Err::<(), Error>(
            Error::Parameter(ParameterError::CannotCancelOfferWeDidNotCreate),
        ),
        offer.is_our_offer ==> res is Ok,
{
    if !offer.is_our_offer {
        return Err(Error::Parameter(ParameterError::CannotCancelOfferWeDidNotCreate));
    }
    Ok(())
}

/// Checks that `offer` may be declined: it must not be ours.
pub fn check_decline(offer: &TradeOffer) -> (res: Result<(), Error>)
    ensures
        offer.is_our_offer ==> res == Err::<(), Error>(
            Error::Parameter(ParameterError::CannotDeclineOfferWeCreated),
        ),
        !offer.is_our_offer ==> res is Ok,
{
    if offer.is_our_offer {
        return Err(Error::Parameter(ParameterError::CannotDeclineOfferWeCreated));
    }
    Ok(())
}

/// `a` and `b` differ at most in their state.
pub open spec fn same_but_state(a: TradeOffer, b: TradeOffer) -> bool {
    a == TradeOffer { trade_offer_state: a.trade_offer_state, ..b }
}

/// Sets the state of `offer` after an action on it went through.
pub fn set_state(offer: &mut TradeOffer, state: TradeOfferState)
    ensures
        final(offer).trade_offer_state == state,
        same_but_state(*final(offer), *old(offer)),
{
    offer.trade_offer_state = state;
}

// ---------------------------------------------------------------------------------------------
// Receipts.
// ---------------------------------------------------------------------------------------------

/// How the receipt of an offer is obtained.
#[derive(Debug, Clone, Copy, PartialEq, Eq)]
pub enum ReceiptPlan {
    /// The offer received nothing: the receipt is empty.
    Empty,
    /// The receipt of the trade with this ID is fetched.
    Fetch(TradeId),
}

/// Decides how to get the receipt of `offer`: it must be accepted; an offer that received no
/// items has an empty receipt; otherwise the trade ID is needed.
pub fn receipt_plan(offer: &TradeOffer) -> (res: Result<ReceiptPlan, Error>)
    ensures
        offer.trade_offer_state != TradeOfferState::Accepted ==> res == Err::<ReceiptPlan, Error>(
            Error::Parameter(ParameterError::NotInAcceptedState(offer.trade_offer_state)),
        ),
        offer.trade_offer_state == TradeOfferState::Accepted && offer.items_to_receive@.len() == 0
            ==> res == Ok::<ReceiptPlan, Error>(ReceiptPlan::Empty),
        offer.trade_offer_state == TradeOfferState::Accepted && offer.items_to_receive@.len() > 0
            ==> match offer.tradeid {
            Some(id) => res == Ok::<ReceiptPlan, Error>(ReceiptPlan::Fetch(id)),
            None => res == Err::<ReceiptPlan, Error>(
                Error::Parameter(ParameterError::MissingTradeId),
            ),
        },
{
    if offer.trade_offer_state != TradeOfferState::Accepted {
        Err(Error::Parameter(ParameterError::NotInAcceptedState(offer.trade_offer_state)))
    } else if offer.items_to_receive.len() == 0 {
        Ok(ReceiptPlan::Empty)
    } else {
        match offer.tradeid {
            Some(id) => Ok(ReceiptPlan::Fetch(id)),
            None => Err(Error::Parameter(ParameterError::MissingTradeId)),
        }
    }
}

// ---------------------------------------------------------------------------------------------
// Updating offers.
// ---------------------------------------------------------------------------------------------

/// `a` is `old` with the fields that an update brings taken from `updated`.
pub open spec fn updated_from(a: TradeOffer, old: TradeOffer, updated: RawTradeOffer) -> bool {
    a == TradeOffer {
        tradeofferid: updated.tradeofferid,
        tradeid: updated.tradeid,
        trade_offer_state: updated.trade_offer_state,
        confirmation_method: updated.confirmation_method,
        escrow_end_date: updated.escrow_end_date,
        time_created: updated.time_created,
        time_updated: updated.time_updated,
        expiration_time: updated.expiration_time,
        ..old
    }
}

/// Updates `offer` to the most recent state that `updated` gives of it: its IDs, state,
/// confirmation method, escrow end and times. The partner, message and items stay.
pub fn update_offer(offer: &mut TradeOffer, updated: &RawTradeOffer)
    ensures
        updated_from(*final(offer), *old(offer), *updated),
{
    offer.tradeofferid = updated.tradeofferid;
    offer.tradeid = updated.tradeid;
    offer.trade_offer_state = updated.trade_offer_state;
    offer.confirmation_method = updated.confirmation_method;
    offer.escrow_end_date = updated.escrow_end_date;
    offer.time_created = updated.time_created;
    offer.time_updated = updated.time_updated;
    offer.expiration_time = updated.expiration_time;
}

// ---------------------------------------------------------------------------------------------
// Getting offers.
// ---------------------------------------------------------------------------------------------

/// The options of the request for offers under `filter`: sent and received offers, without
/// descriptions.
pub fn trade_offers_options(filter: OfferFilter, historical_cutoff: Option<ServerTime>) -> (res:
    GetTradeOffersOptions)
    ensures
        res == (GetTradeOffersOptions {
            active_only: filter == OfferFilter::ActiveOnly,
            historical_only: filter == OfferFilter::HistoricalOnly,
            get_sent_offers: true,
            get_received_offers: true,
            get_descriptions: false,
            historical_cutoff,
        }),
{
    GetTradeOffersOptions {
        active_only: filter == OfferFilter::ActiveOnly,
        historical_only: filter == OfferFilter::HistoricalOnly,
        get_sent_offers: true,
        get_received_offers: true,
        get_descriptions: false,
        historical_cutoff,
    }
}

/// Whether `filter` keeps an offer in `state`.
pub open spec fn filter_keeps(filter: OfferFilter, state: TradeOfferState) -> bool {
    match filter {
        OfferFilter::ActiveOnly => state == TradeOfferState::Active,
        OfferFilter::HistoricalOnly => state != TradeOfferState::Active,
        OfferFilter::All => true,
    }
}

/// Trims offers to those that `filter` keeps, in order, since responses do not always hold only
/// what was asked for.
pub fn trim_offers(offers: Vec<TradeOffer>, filter: OfferFilter) -> (res: Vec<TradeOffer>)
    ensures
        res@ == offers@.filter(|o: TradeOffer| filter_keeps(filter, o.trade_offer_state)),
        res@ == trimmed(offers@, filter),
{
    let ghost all = offers@;
    let mut rest = offers;
    let mut kept: Vec<TradeOffer> = Vec::new();
    let ghost mut done: Seq<TradeOffer> = Seq::empty();
    while rest.len() > 0
        invariant
            all == done + rest@,
            kept@ == done.filter(|o: TradeOffer| filter_keeps(filter, o.trade_offer_state)),
        decreases rest@.len(),
    {
        let offer = rest.remove(0);
        let ghost o = offer;
        proof {
            assert(done.push(o).drop_last() =~= done);
            assert(all == done.push(o) + rest@);
            reveal(Seq::filter);
        }
        let keep = match filter {
            OfferFilter::ActiveOnly => offer.trade_offer_state == TradeOfferState::Active,
            OfferFilter::HistoricalOnly => offer.trade_offer_state != TradeOfferState::Active,
            OfferFilter::All => true,
        };
        if keep {
            kept.push(offer);
        }
        proof {
            done = done.push(o);
        }
    }
    assert(done =~= all);
    kept
}

/// The historical cutoff of a request for active offers: the largest 32-bit UNIX timestamp, so
/// that no active offer is cut off.
pub fn active_offers_cutoff() -> (res: ServerTime)
    ensures
        res == 4294967295 * 1000,
{
    time_from_secs(4294967295)
}

// ---------------------------------------------------------------------------------------------
// The login.
// ---------------------------------------------------------------------------------------------

/// The Steam ID of the login, where one was set: 0 stands for none.
pub fn get_steamid(steamid: u64) -> (res: Result<u64, Error>)
    ensures
        steamid == 0 ==> res == Err::<u64, Error>(Error::NotLoggedIn),
        steamid != 0 ==> res == Ok::<u64, Error>(steamid),
{
    if steamid == 0 {
        Err(Error::NotLoggedIn)
    } else {
        Ok(steamid)
    }
}

/// Checks what polling needs: an API key and a login. It gives the Steam ID of the login.
pub fn check_start_polling(has_api_key: bool, steamid: u64) -> (res: Result<u64, Error>)
    ensures
        !has_api_key ==> res == Err::<u64, Error>(Error::Parameter(ParameterError::MissingApiKeyOrAccessToken)),
        has_api_key && steamid == 0 ==> res == Err::<u64, Error>(Error::NotLoggedIn),
        has_api_key && steamid != 0 ==> res == Ok::<u64, Error>(steamid),
{
    if !has_api_key {
        return Err(Error::Parameter(ParameterError::MissingApiKeyOrAccessToken));
    }
    get_steamid(steamid)
}

// ---------------------------------------------------------------------------------------------
// Confirmations.
// ---------------------------------------------------------------------------------------------

/// The first confirmation of `s` created for `tradeofferid`, if any.
pub open spec fn first_confirmation_for(s: Seq<Confirmation>, tradeofferid: TradeOfferId) -> Option<
    int,
>
    decreases s.len(),
{
    if s.len() == 0 {
        None
    } else {
        match first_confirmation_for(s.drop_last(), tradeofferid) {
            Some(i) => Some(i),
            None => if s.last().creator_id == tradeofferid {
                Some(s.len() - 1)
            } else {
                None
            },
        }
    }
}

/// Finds the first confirmation for the offer `tradeofferid`; without one it fails with
/// `NoConfirmationForOffer`.
pub fn find_confirmation(confirmations: Vec<Confirmation>, tradeofferid: TradeOfferId) -> (res:
    Result<Confirmation, Error>)
    ensures
        match first_confirmation_for(confirmations@, tradeofferid) {
            Some(i) => res == Ok::<Confirmation, Error>(confirmations@[i]),
            None => res == Err::<Confirmation, Error>(Error::NoConfirmationForOffer(tradeofferid)),
        },
{
    let ghost all = confirmations@;
    let mut rest = confirmations;
    let ghost mut done: Seq<Confirmation> = Seq::empty();
    while rest.len() > 0
        invariant
            all == done + rest@,
            all == confirmations@,
            first_confirmation_for(done, tradeofferid) is None,
        decreases rest@.len(),
    {
        let c = rest.remove(0);
        let ghost cg = c;
        proof {
            assert(done.push(cg).drop_last() =~= done);
            assert(all == done.push(cg) + rest@);
        }
        if c.creator_id == tradeofferid {
            proof {
                assert(first_confirmation_for(done.push(cg), tradeofferid) == Some(
                    done.len() as int,
                ));
                lemma_first_confirmation_prefix(all, done.push(cg), rest@, tradeofferid);
            }
            return Ok(c);
        }
        proof {
            done = done.push(cg);
        }
    }
    assert(done =~= all);
    Err(Error::NoConfirmationForOffer(tradeofferid))
}

proof fn lemma_first_confirmation_prefix(
    all: Seq<Confirmation>,
    prefix: Seq<Confirmation>,
    rest: Seq<Confirmation>,
    tradeofferid: TradeOfferId,
)
    requires
        all == prefix + rest,
        first_confirmation_for(prefix, tradeofferid) is Some,
    ensures
        first_confirmation_for(all, tradeofferid) == first_confirmation_for(prefix, tradeofferid),
        first_confirmation_for(all, tradeofferid)->0 < prefix.len(),
        all[first_confirmation_for(all, tradeofferid)->0] == prefix[first_confirmation_for(
            prefix,
            tradeofferid,
        )->0],
    decreases rest.len(),
{
    lemma_first_confirmation_bound(prefix, tradeofferid);
    if rest.len() > 0 {
        let shorter = all.drop_last();
        assert(shorter =~= prefix + rest.drop_last());
        lemma_first_confirmation_prefix(shorter, prefix, rest.drop_last(), tradeofferid);
    } else {
        assert(all =~= prefix);
    }
}

proof fn lemma_first_confirmation_bound(s: Seq<Confirmation>, tradeofferid: TradeOfferId)
    ensures
        first_confirmation_for(s, tradeofferid) matches Some(i) ==> 0 <= i < s.len(),
    decreases s.len(),
{
    if s.len() > 0 {
        lemma_first_confirmation_bound(s.drop_last(), tradeofferid);
    }
}


/// The offers of `s` that `filter` keeps, in order.
pub open spec fn trimmed(s: Seq<TradeOffer>, filter: OfferFilter) -> Seq<TradeOffer> {
    s.filter(|o: TradeOffer| filter_keeps(filter, o.trade_offer_state))
}

/// Trimming to active offers keeps exactly the active offers, and trimming to historical offers
/// keeps exactly the others; trimming to all offers keeps every offer.
pub proof fn law_trim_keeps_by_state(s: Seq<TradeOffer>)
    ensures
        forall|k: int|
            0 <= k < trimmed(s, OfferFilter::ActiveOnly).len() ==> (#[trigger] trimmed(
                s,
                OfferFilter::ActiveOnly,
            )[k]).trade_offer_state == TradeOfferState::Active,
        forall|k: int|
            0 <= k < trimmed(s, OfferFilter::HistoricalOnly).len() ==> (#[trigger] trimmed(
                s,
                OfferFilter::HistoricalOnly,
            )[k]).trade_offer_state != TradeOfferState::Active,
        forall|i: int|
            0 <= i < s.len() && (#[trigger] s[i]).trade_offer_state == TradeOfferState::Active
                ==> trimmed(s, OfferFilter::ActiveOnly).contains(s[i]),
        forall|i: int|
            0 <= i < s.len() && (#[trigger] s[i]).trade_offer_state != TradeOfferState::Active
                ==> trimmed(s, OfferFilter::HistoricalOnly).contains(s[i]),
        trimmed(s, OfferFilter::All) == s,
{
    let fa = |o: TradeOffer| filter_keeps(OfferFilter::ActiveOnly, o.trade_offer_state);
    let fh = |o: TradeOffer| filter_keeps(OfferFilter::HistoricalOnly, o.trade_offer_state);
    assert(trimmed(s, OfferFilter::ActiveOnly) == s.filter(fa));
    assert(trimmed(s, OfferFilter::HistoricalOnly) == s.filter(fh));
    assert forall|k: int| 0 <= k < s.filter(fa).len() implies (#[trigger] s.filter(fa)[k]).trade_offer_state
        == TradeOfferState::Active by {
        s.lemma_filter_pred(fa, k);
    }
    assert forall|k: int| 0 <= k < s.filter(fh).len() implies (#[trigger] s.filter(fh)[k]).trade_offer_state
        != TradeOfferState::Active by {
        s.lemma_filter_pred(fh, k);
    }
    assert forall|i: int| 0 <= i < s.len() && (#[trigger] s[i]).trade_offer_state
        == TradeOfferState::Active implies s.filter(fa).contains(s[i]) by {
        s.lemma_filter_contains(fa, i);
    }
    assert forall|i: int| 0 <= i < s.len() && (#[trigger] s[i]).trade_offer_state
        != TradeOfferState::Active implies s.filter(fh).contains(s[i]) by {
        s.lemma_filter_contains(fh, i);
    }
    law_trim_partitions(s);
}

/// Trimming to active offers and trimming to historical offers split the offers between them:
/// every offer lands in exactly one of the two.
pub proof fn law_trim_partitions(s: Seq<TradeOffer>)
    ensures
        s.filter(|o: TradeOffer| filter_keeps(OfferFilter::ActiveOnly, o.trade_offer_state)).len()
            + s.filter(|o: TradeOffer| filter_keeps(OfferFilter::HistoricalOnly, o.trade_offer_state)).len()
            == s.len(),
        s.filter(|o: TradeOffer| filter_keeps(OfferFilter::All, o.trade_offer_state)) == s,
    decreases s.len(),
{
    reveal(Seq::filter);
    if s.len() > 0 {
        law_trim_partitions(s.drop_last());
        assert(s.drop_last().push(s.last()) =~= s);
    } else {
        assert(s.filter(|o: TradeOffer| filter_keeps(OfferFilter::All, o.trade_offer_state)) =~= s);
    }
}

} // verus!
