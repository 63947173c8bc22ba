//! Polling trade offers: the decisions of a poll, from the poll's type and the stored poll data
//! to the request to make, and from the offers that came back to the changes to report.
use vstd::prelude::*;
use std::collections::HashMap;
use crate::enums::TradeOfferState;
use crate::request::GetTradeOffersOptions;
use crate::response::{RawTradeOffer, TradeOffer};
use crate::time::{valid_time, timestamp, timestamp_spec, time_from_secs, elapsed_at_least};
use crate::types::{ServerTime, Millis, TradeOfferId};

verus! {

broadcast use vstd::std_specs::hash::group_hash_axioms;

/// Poll interval used when none is set: 30 seconds.
pub const DEFAULT_POLL_INTERVAL_MILLIS: i64 = 30000;
/// Full update interval used when none is set: 5 minutes.
pub const DEFAULT_FULL_UPDATE_MILLIS: i64 = 300000;
/// A poll of the same type within this many milliseconds of the last is ignored.
pub const CALLED_TOO_RECENTLY_MILLIS: i64 = 400;
/// Steam can backdate a modified offer, so polls reach back this many seconds further.
pub const OFFERS_SINCE_BUFFER_SECONDS: i64 = 1800;
/// The timestamp that fetches offers from all time.
pub const OFFERS_SINCE_ALL_TIMESTAMP: i64 = 1;

/// The type of poll to perform.
#[derive(Debug, Clone, Copy, PartialEq, Eq, Structural)]
pub enum PollType {
    /// Let the manager decide. Unless you need to fetch offers in special cases this is what
    /// should be used.
    Auto,
    /// Fastest method for obtaining new offers. This will fetch only active offers and includes
    /// descriptions in the response. This will not update the timestamps in the poll data.
    NewOffers,
    /// Do a full update.
    FullUpdate,
    /// Performs a poll fetching offers since the given time.
    OffersSince(ServerTime),
}

impl PollType {
    /// The poll is a full update.
    pub fn is_full_update(&self) -> (res: bool)
        ensures
            res == (*self is FullUpdate),
    {
        match self {
            PollType::FullUpdate => true,
            _ => false,
        }
    }

    /// The poll is only active offers.
    pub fn is_active_only(&self) -> (res: bool)
        ensures
            res == (*self is NewOffers),
    {
        match self {
            PollType::NewOffers => true,
            _ => false,
        }
    }
}

/// An action to send to the polling task.
#[derive(Debug, Clone, Copy, PartialEq, Eq, Structural)]
pub enum PollAction {
    /// Perform a poll.
    DoPoll(PollType),
    /// Stop polling.
    StopPolling,
}

/// Options for polling. Lengths of time are in milliseconds.
#[derive(Debug, Clone, Copy, PartialEq, Eq)]
pub struct PollOptions {
    /// The duration after a sent offer has been active to cancel during a poll. Offers will
    /// not be cancelled if this is not set.
    pub cancel_duration: Option<Millis>,
    /// The duration after the last poll becomes stale and a new one must be obtained when
    /// polling using [`PollType::Auto`]. Default is 5 minutes.
    pub poll_full_update_duration: Millis,
    /// Interval to poll at. Default is 30 seconds.
    pub poll_interval: Millis,
}

impl Default for PollOptions {
    fn default() -> (res: Self)
        ensures
            res == (PollOptions {
                cancel_duration: None,
                poll_full_update_duration: DEFAULT_FULL_UPDATE_MILLIS,
                poll_interval: DEFAULT_POLL_INTERVAL_MILLIS,
            }),
    {
        PollOptions {
            cancel_duration: None,
            poll_full_update_duration: DEFAULT_FULL_UPDATE_MILLIS,
            poll_interval: DEFAULT_POLL_INTERVAL_MILLIS,
        }
    }
}

impl PollOptions {
    /// Uses the default values but includes a cancel duration.
    pub fn default_with_cancel_duration(duration: Millis) -> (res: Self)
        ensures
            res == (PollOptions {
                cancel_duration: Some(duration),
                poll_full_update_duration: DEFAULT_FULL_UPDATE_MILLIS,
                poll_interval: DEFAULT_POLL_INTERVAL_MILLIS,
            }),
    {
        PollOptions {
            cancel_duration: Some(duration),
            poll_full_update_duration: DEFAULT_FULL_UPDATE_MILLIS,
            poll_interval: DEFAULT_POLL_INTERVAL_MILLIS,
        }
    }

    /// Checks that the durations aren't too low so API calls are not spammed: each of the two
    /// intervals is raised to one second when it is shorter.
    pub fn sanity_check(&mut self)
        ensures
            final(self).cancel_duration == old(self).cancel_duration,
            final(self).poll_full_update_duration == if old(self).poll_full_update_duration
                < 1000 {
                1000
            } else {
                old(self).poll_full_update_duration
            },
            final(self).poll_interval == if old(self).poll_interval < 1000 {
                1000
            } else {
                old(self).poll_interval
            },
    {
        if self.poll_full_update_duration < 1000 {
            self.poll_full_update_duration = 1000;
        }
        if self.poll_interval < 1000 {
            self.poll_interval = 1000;
        }
    }
}

/// Account poll data, kept between polls.
#[derive(Debug, Clone)]
pub struct PollData {
    /// Where to fetch offers since the last poll.
    pub offers_since: Option<ServerTime>,
    /// The date of the last poll.
    pub last_poll: Option<ServerTime>,
    /// The last full update.
    pub last_poll_full_update: Option<ServerTime>,
    /// The state map for trade offers.
    pub state_map: HashMap<TradeOfferId, TradeOfferState>,
    /// Whether the data has changed. Used for reducing file writes.
    pub changed: bool,
}

/// Every point in time that `d` holds is within the range of this crate.
pub open spec fn poll_data_valid(d: PollData) -> bool {
    &&& (d.offers_since matches Some(t) ==> valid_time(t as int))
    &&& (d.last_poll matches Some(t) ==> valid_time(t as int))
    &&& (d.last_poll_full_update matches Some(t) ==> valid_time(t as int))
}

/// The last full poll is stale at `now`: there was none, or it is `update_interval` or more
/// old.
pub open spec fn full_poll_stale(d: PollData, now: int, update_interval: int) -> bool {
    match d.last_poll_full_update {
        Some(t) => now - t >= update_interval,
        None => true,
    }
}

impl PollData {
    /// Empty poll data.
    pub fn new() -> (res: Self)
        ensures
            res.offers_since is None,
            res.last_poll is None,
            res.last_poll_full_update is None,
            res.state_map@ == Map::<TradeOfferId, TradeOfferState>::empty(),
            !res.changed,
    {
        PollData {
            offers_since: None,
            last_poll: None,
            last_poll_full_update: None,
            state_map: HashMap::new(),
            changed: false,
        }
    }

    /// Checks if the last full poll is stale at `now` based on the `update_interval`.
    pub fn last_full_poll_is_stale(&self, now: ServerTime, update_interval: Millis) -> (res: bool)
        ensures
            res == full_poll_stale(*self, now as int, update_interval as int),
    {
        match self.last_poll_full_update {
            Some(t) => elapsed_at_least(t, now, update_interval),
            None => true,
        }
    }

    /// Clears offers from the state map. The data counts as changed when one of the offers was
    /// in the map.
    pub fn clear_offers(&mut self, tradeofferids_to_remove: &[TradeOfferId])
        ensures
            final(self).state_map@ == old(self).state_map@.remove_keys(
                tradeofferids_to_remove@.to_set(),
            ),
            final(self).changed == (old(self).changed || exists|j: int|
                0 <= j < tradeofferids_to_remove@.len() && old(self).state_map@.contains_key(
                    #[trigger] tradeofferids_to_remove@[j],
                )),
            final(self).offers_since == old(self).offers_since,
            final(self).last_poll == old(self).last_poll,
            final(self).last_poll_full_update == old(self).last_poll_full_update,
    {
        let mut i: usize = 0;
        while i < tradeofferids_to_remove.len()
            invariant
                i <= tradeofferids_to_remove@.len(),
                self.state_map@ == old(self).state_map@.remove_keys(
                    tradeofferids_to_remove@.subrange(0, i as int).to_set(),
                ),
                self.changed == (old(self).changed || exists|j: int|
                    0 <= j < i && old(self).state_map@.contains_key(
                        #[trigger] tradeofferids_to_remove@[j],
                    )),
                self.offers_since == old(self).offers_since,
                self.last_poll == old(self).last_poll,
                self.last_poll_full_update == old(self).last_poll_full_update,
            decreases tradeofferids_to_remove@.len() - i,
        {
            let id = tradeofferids_to_remove[i];
            let removed = self.state_map.remove(&id);
            let ghost s = tradeofferids_to_remove@;
            proof {
                assert(s.subrange(0, i + 1) =~= s.subrange(0, i as int).push(id));
                s.subrange(0, i as int).lemma_push_to_set_commute(id);
                assert(self.state_map@ =~= old(self).state_map@.remove_keys(
                    s.subrange(0, i + 1).to_set(),
                ));
                if old(self).state_map@.contains_key(id) && s.subrange(0, i as int).to_set().contains(id) {
                    let k = s.subrange(0, i as int).index_of(id);
                    assert(s[k] == s.subrange(0, i as int)[k]);
                }
            }
            if removed.is_some() {
                self.changed = true;
            }
            proof {
                assert(s[i as int] == id);
            }
            i = i + 1;
        }
        assert(tradeofferids_to_remove@.subrange(0, i as int) =~= tradeofferids_to_remove@);
    }

    /// Updates the `offers_since` value. The data counts as changed when the value changes.
    pub fn set_offers_since(&mut self, date: ServerTime)
        ensures
            final(self).offers_since == Some(date),
            final(self).changed == (old(self).changed || old(self).offers_since != Some(date)),
            final(self).state_map@ == old(self).state_map@,
            final(self).last_poll == old(self).last_poll,
            final(self).last_poll_full_update == old(self).last_poll_full_update,
    {
        let same = match self.offers_since {
            Some(d) => d == date,
            None => false,
        };
        if !same {
            self.offers_since = Some(date);
            self.changed = true;
        }
    }

    /// Updates the `last_poll` value. This alone does not count as a change.
    pub fn set_last_poll(&mut self, date: ServerTime)
        ensures
            final(self).last_poll == Some(date),
            final(self).changed == old(self).changed,
            final(self).state_map@ == old(self).state_map@,
            final(self).offers_since == old(self).offers_since,
            final(self).last_poll_full_update == old(self).last_poll_full_update,
    {
        self.last_poll = Some(date);
    }

    /// Updates the `last_poll_full_update` value. The data counts as changed when the value
    /// changes.
    pub fn set_last_poll_full_update(&mut self, date: ServerTime)
        ensures
            final(self).last_poll_full_update == Some(date),
            final(self).changed == (old(self).changed || old(self).last_poll_full_update != Some(
                date,
            )),
            final(self).state_map@ == old(self).state_map@,
            final(self).offers_since == old(self).offers_since,
            final(self).last_poll == old(self).last_poll,
    {
        let same = match self.last_poll_full_update {
            Some(d) => d == date,
            None => false,
        };
        if !same {
            self.last_poll_full_update = Some(date);
            self.changed = true;
        }
    }

    /// Keeps only the offers in `tradeofferids` in the state map.
    pub fn retain_offers(&mut self, tradeofferids: &[TradeOfferId])
        ensures
            final(self).state_map@ == old(self).state_map@.restrict(tradeofferids@.to_set()),
            final(self).changed == old(self).changed,
            final(self).offers_since == old(self).offers_since,
            final(self).last_poll == old(self).last_poll,
            final(self).last_poll_full_update == old(self).last_poll_full_update,
    {
        let mut kept: HashMap<TradeOfferId, TradeOfferState> = HashMap::new();
        let mut i: usize = 0;
        while i < tradeofferids.len()
            invariant
                i <= tradeofferids@.len(),
                kept@ == self.state_map@.restrict(tradeofferids@.subrange(0, i as int).to_set()),
            decreases tradeofferids@.len() - i,
        {
            let id = tradeofferids[i];
            let ghost before = kept@;
            match self.state_map.get(&id) {
                Some(state) => {
                    kept.insert(id, *state);
                },
                None => {},
            }
            proof {
                let s = tradeofferids@;
                assert(s.subrange(0, i + 1) =~= s.subrange(0, i as int).push(id));
                s.subrange(0, i as int).lemma_push_to_set_commute(id);
                assert(kept@ =~= self.state_map@.restrict(s.subrange(0, i + 1).to_set()));
            }
            i = i + 1;
        }
        assert(tradeofferids@.subrange(0, i as int) =~= tradeofferids@);
        self.state_map = kept;
    }

    /// Takes the `changed` flag: whether the data must be saved, leaving it unset.
    pub fn take_changed(&mut self) -> (res: bool)
        ensures
            res == old(self).changed,
            !final(self).changed,
            final(self).state_map@ == old(self).state_map@,
            final(self).offers_since == old(self).offers_since,
            final(self).last_poll == old(self).last_poll,
            final(self).last_poll_full_update == old(self).last_poll_full_update,
    {
        let changed = self.changed;
        self.changed = false;
        changed
    }
}

// ---------------------------------------------------------------------------------------------
// Planning a poll.
// ---------------------------------------------------------------------------------------------

/// The request that a poll makes, and what it decided on the way.
#[derive(Debug, Clone, Copy, PartialEq, Eq)]
pub struct PollPlan {
    /// The UNIX timestamp in seconds that offers are fetched since.
    pub offers_since: i64,
    /// Whether only active offers are fetched.
    pub active_only: bool,
    /// Whether this poll is a full update.
    pub is_full_update: bool,
    /// The options of the request for offers.
    pub options: GetTradeOffersOptions,
}

/// The plan of a poll of type `t` at `now` with the data `d`: a full update when asked for or
/// when the last one is stale; `NewOffers` fetches active offers with descriptions from a far
/// future cutoff; `OffersSince` fetches all offers since its time; a full update fetches all
/// offers from all time; otherwise active offers since half an hour before the stored
/// `offers_since` (or from all time).
pub open spec fn plan_spec(d: PollData, t: PollType, now: int, full_update_duration: int) -> PollPlan {
    let default_since = match d.offers_since {
        Some(s) => timestamp_spec(s as int) - OFFERS_SINCE_BUFFER_SECONDS,
        None => OFFERS_SINCE_ALL_TIMESTAMP as int,
    };
    let full = t is FullUpdate || full_poll_stale(d, now, full_update_duration);
    let (since, active_only, is_full_update) = match t {
        PollType::NewOffers => (u32::MAX as int, true, false),
        PollType::OffersSince(date) => (timestamp_spec(date as int), false, false),
        _ => if full {
            (OFFERS_SINCE_ALL_TIMESTAMP as int, false, true)
        } else {
            (default_since, true, false)
        },
    };
    PollPlan {
        offers_since: since as i64,
        active_only,
        is_full_update,
        options: GetTradeOffersOptions {
            active_only,
            historical_only: false,
            get_sent_offers: true,
            get_received_offers: true,
            get_descriptions: t is NewOffers,
            historical_cutoff: Some((since * 1000) as i64),
        },
    }
}

/// Plans a poll of type `poll_type` at `now`.
pub fn plan_poll(
    poll_data: &PollData,
    poll_type: PollType,
    now: ServerTime,
    poll_full_update_duration: Millis,
) -> (res: PollPlan)
    requires
        poll_data_valid(*poll_data),
        poll_type matches PollType::OffersSince(t) ==> valid_time(t as int),
    ensures
        res == plan_spec(*poll_data, poll_type, now as int, poll_full_update_duration as int),
{
    let mut offers_since: i64 = match poll_data.offers_since {
        Some(date) => timestamp(date) - OFFERS_SINCE_BUFFER_SECONDS,
        None => OFFERS_SINCE_ALL_TIMESTAMP,
    };
    let mut active_only = true;
    let mut is_full_update = poll_type.is_full_update() || poll_data.last_full_poll_is_stale(
        now,
        poll_full_update_duration,
    );
    match poll_type {
        PollType::NewOffers => {
            offers_since = 4294967295;
            is_full_update = false;
        },
        PollType::OffersSince(date) => {
            offers_since = timestamp(date);
            active_only = false;
            is_full_update = false;
        },
        _ => {
            if is_full_update {
                offers_since = OFFERS_SINCE_ALL_TIMESTAMP;
                active_only = false;
            }
        },
    }
    PollPlan {
        offers_since,
        active_only,
        is_full_update,
        options: GetTradeOffersOptions {
            active_only,
            historical_only: false,
            get_sent_offers: true,
            get_received_offers: true,
            get_descriptions: poll_type.is_active_only(),
            historical_cutoff: Some(time_from_secs(offers_since)),
        },
    }
}

// ---------------------------------------------------------------------------------------------
// Cancelling old offers.
// ---------------------------------------------------------------------------------------------

/// An offer that a poll cancels when offers updated before `cancel_time` are to be cancelled:
/// our own active offer (or one awaiting confirmation) without a trade ID.
pub open spec fn is_cancel_candidate(o: RawTradeOffer, cancel_time: int) -> bool {
    &&& (o.trade_offer_state == TradeOfferState::Active || o.trade_offer_state
        == TradeOfferState::CreatedNeedsConfirmation)
    &&& o.is_our_offer
    &&& o.time_updated < cancel_time
    &&& o.tradeid is None
}

/// The IDs of the offers of `s` that [`is_cancel_candidate`] selects, in order.
pub open spec fn cancel_candidates(s: Seq<RawTradeOffer>, cancel_time: int) -> Seq<TradeOfferId>
    decreases s.len(),
{
    if s.len() == 0 {
        Seq::empty()
    } else if is_cancel_candidate(s.last(), cancel_time) {
        cancel_candidates(s.drop_last(), cancel_time).push(s.last().tradeofferid)
    } else {
        cancel_candidates(s.drop_last(), cancel_time)
    }
}

/// The time before which offers are cancelled: `duration` before `now`.
pub fn cancel_time(now: ServerTime, duration: Millis) -> (res: ServerTime)
    requires
        i64::MIN <= now - duration <= i64::MAX,
    ensures
        res == now - duration,
{
    now - duration
}

/// The offers that a poll cancels.
pub fn offers_to_cancel(offers: &Vec<RawTradeOffer>, cancel_time: ServerTime) -> (res: Vec<
    TradeOfferId,
>)
    ensures
        res@ == cancel_candidates(offers@, cancel_time as int),
{
    let mut out: Vec<TradeOfferId> = Vec::new();
    let mut i: usize = 0;
    while i < offers.len()
        invariant
            i <= offers@.len(),
            out@ == cancel_candidates(offers@.subrange(0, i as int), cancel_time as int),
        decreases offers@.len() - i,
    {
        let o = &offers[i];
        let active = o.trade_offer_state == TradeOfferState::Active || o.trade_offer_state
            == TradeOfferState::CreatedNeedsConfirmation;
        proof {
            assert(offers@.subrange(0, i + 1).drop_last() =~= offers@.subrange(0, i as int));
        }
        if active && o.is_our_offer && o.time_updated < cancel_time && o.tradeid.is_none() {
            out.push(o.tradeofferid);
        }
        i = i + 1;
    }
    assert(offers@.subrange(0, i as int) =~= offers@);
    out
}

// ---------------------------------------------------------------------------------------------
// Reading the offers that came back.
// ---------------------------------------------------------------------------------------------

/// `o` with its state set to `Canceled` when a poll cancelled it.
pub open spec fn after_cancel(o: RawTradeOffer, cancelled: Seq<TradeOfferId>) -> RawTradeOffer {
    if cancelled.contains(o.tradeofferid) {
        RawTradeOffer { trade_offer_state: TradeOfferState::Canceled, ..o }
    } else {
        o
    }
}

/// An offer that a poll reports: one with items whose state is new or differs from the state
/// recorded in `m`.
pub open spec fn is_reported(o: RawTradeOffer, m: Map<TradeOfferId, TradeOfferState>) -> bool {
    &&& !(o.items_to_receive@.len() == 0 && o.items_to_give@.len() == 0)
    &&& (!m.contains_key(o.tradeofferid) || m[o.tradeofferid] != o.trade_offer_state)
}

/// The offers of `s` that a poll reports, after its cancellations, in order.
pub open spec fn reported_offers(
    s: Seq<RawTradeOffer>,
    cancelled: Seq<TradeOfferId>,
    m: Map<TradeOfferId, TradeOfferState>,
) -> Seq<RawTradeOffer>
    decreases s.len(),
{
    if s.len() == 0 {
        Seq::empty()
    } else {
        let o = after_cancel(s.last(), cancelled);
        if is_reported(o, m) {
            reported_offers(s.drop_last(), cancelled, m).push(o)
        } else {
            reported_offers(s.drop_last(), cancelled, m)
        }
    }
}

/// The latest update time among `start` and the offers of `s` that have items.
pub open spec fn latest_update(s: Seq<RawTradeOffer>, start: int) -> int
    decreases s.len(),
{
    if s.len() == 0 {
        start
    } else {
        let prev = latest_update(s.drop_last(), start);
        let o = s.last();
        if !(o.items_to_receive@.len() == 0 && o.items_to_give@.len() == 0) && o.time_updated
            > prev {
            o.time_updated as int
        } else {
            prev
        }
    }
}

/// The previous states of the reported offers of `s` that were already recorded in `m`.
pub open spec fn previous_states(
    s: Seq<RawTradeOffer>,
    cancelled: Seq<TradeOfferId>,
    m: Map<TradeOfferId, TradeOfferState>,
) -> Map<TradeOfferId, TradeOfferState>
    decreases s.len(),
{
    if s.len() == 0 {
        Map::empty()
    } else {
        let o = after_cancel(s.last(), cancelled);
        if is_reported(o, m) && m.contains_key(o.tradeofferid) {
            previous_states(s.drop_last(), cancelled, m).insert(
                o.tradeofferid,
                m[o.tradeofferid],
            )
        } else {
            previous_states(s.drop_last(), cancelled, m)
        }
    }
}

/// A change of state of an offer.
#[derive(Debug)]
pub struct PollChange {
    /// The state before.
    pub old_state: TradeOfferState,
    /// The state after.
    pub new_state: TradeOfferState,
    /// The offer.
    pub offer: TradeOffer,
}

/// What a poll takes from the offers that came back.
#[derive(Debug, Clone)]
pub struct PollChanges {
    /// The offers to report, after cancellations.
    pub offers: Vec<RawTradeOffer>,
    /// The previous states of the reported offers that were already known.
    pub prev_states: HashMap<TradeOfferId, TradeOfferState>,
}

/// The `offers_since` that a poll starts from: the stored one, or the plan's timestamp.
pub open spec fn since_start(d: PollData, plan: PollPlan) -> int {
    match d.offers_since {
        Some(t) => t as int,
        None => plan.offers_since * 1000,
    }
}

/// Reads the offers that a poll of type `poll_type` planned as `plan` got back at `now`, of
/// which those in `cancelled` were cancelled during the poll. Records the time of the poll
/// (unless it fetched only new offers), the time of the full update (if it is one), and the
/// latest update time of the offers as the new `offers_since` (unless it fetched only new
/// offers). A full update that got offers back trims the state map to those offers, so that it
/// does not grow indefinitely; any other poll leaves it as it is. Returns the offers to report
/// and the previous states of those that were known, as the state map held them before.
pub fn apply_poll_offers(
    poll_data: &mut PollData,
    offers: Vec<RawTradeOffer>,
    cancelled: &[TradeOfferId],
    plan: &PollPlan,
    poll_type: PollType,
    now: ServerTime,
) -> (res: PollChanges)
    requires
        poll_data_valid(*old(poll_data)),
        -9223372036854775 <= plan.offers_since <= 9223372036854775,
    ensures
        res.offers@ == reported_offers(offers@, cancelled@, old(poll_data).state_map@),
        res.prev_states@ == previous_states(offers@, cancelled@, old(poll_data).state_map@),
        final(poll_data).state_map@ == if plan.is_full_update && offers@.len() > 0 {
            old(poll_data).state_map@.restrict(offer_id_set(offers@))
        } else {
            old(poll_data).state_map@
        },
        final(poll_data).last_poll == if poll_type is NewOffers {
            old(poll_data).last_poll
        } else {
            Some(now)
        },
        final(poll_data).last_poll_full_update == if plan.is_full_update {
            Some(now)
        } else {
            old(poll_data).last_poll_full_update
        },
        final(poll_data).offers_since == if poll_type is NewOffers {
            old(poll_data).offers_since
        } else {
            Some(latest_update(offers@, since_start(*old(poll_data), *plan)) as i64)
        },
        final(poll_data).changed == (old(poll_data).changed || (plan.is_full_update && old(
            poll_data,
        ).last_poll_full_update != Some(now)) || (!(poll_type is NewOffers) && old(
            poll_data,
        ).offers_since != Some(latest_update(offers@, since_start(*old(poll_data), *plan)) as i64))),
{
    let ghost m0 = poll_data.state_map@;
    let ghost changed0 = poll_data.changed;
    let ghost full0 = poll_data.last_poll_full_update;
    let ghost since0 = poll_data.offers_since;
    let ghost start = since_start(*poll_data, *plan);
    if !poll_type.is_active_only() {
        poll_data.set_last_poll(now);
    }
    if plan.is_full_update {
        poll_data.set_last_poll_full_update(now);
    }
    let ghost changed1 = poll_data.changed;
    let mut prev_states: HashMap<TradeOfferId, TradeOfferState> = HashMap::new();
    let mut poll: Vec<RawTradeOffer> = Vec::new();
    let mut offers_since: ServerTime = match poll_data.offers_since {
        Some(t) => t,
        None => time_from_secs(plan.offers_since),
    };
    assert(offers_since == start);
    // Offer IDs to keep when evicting items from the state map.
    let mut retained: Vec<TradeOfferId> = Vec::new();
    let ghost all = offers@;
    let mut rest = offers;
    let n = rest.len();
    let mut i: usize = 0;
    while i < n
        invariant
            n == all.len(),
            i <= n,
            rest@ == all.subrange(i as int, n as int),
            poll_data.state_map@ == m0,
            poll@ == reported_offers(all.subrange(0, i as int), cancelled@, m0),
            prev_states@ == previous_states(all.subrange(0, i as int), cancelled@, m0),
            offers_since == latest_update(all.subrange(0, i as int), start),
            retained@ == raw_offer_ids(all.subrange(0, i as int)),
        decreases n - i,
    {
        let mut offer = rest.remove(0);
        proof {
            assert(all.subrange(0, i + 1).drop_last() =~= all.subrange(0, i as int));
            assert(all.subrange(0, i + 1).last() == offer);
            assert(rest@ =~= all.subrange(i + 1, n as int));
        }
        if contains_id(cancelled, offer.tradeofferid) {
            offer.trade_offer_state = TradeOfferState::Canceled;
        }
        retained.push(offer.tradeofferid);
        if !offer.is_glitched() {
            if offer.time_updated > offers_since {
                offers_since = offer.time_updated;
            }
            match poll_data.state_map.get(&offer.tradeofferid) {
                Some(state) => {
                    if *state != offer.trade_offer_state {
                        prev_states.insert(offer.tradeofferid, *state);
                        poll.push(offer);
                    }
                },
                None => {
                    poll.push(offer);
                },
            }
        }
        i = i + 1;
    }
    assert(all.subrange(0, n as int) =~= all);
    if !poll_type.is_active_only() {
        poll_data.set_offers_since(offers_since);
    }
    // Trims the state map so it does not grow indefinitely.
    if plan.is_full_update && retained.len() > 0 {
        proof {
            lemma_raw_offer_ids_set(all);
        }
        poll_data.retain_offers(retained.as_slice());
    }
    PollChanges { offers: poll, prev_states }
}

/// The IDs of the offers of `s`, in order.
pub open spec fn raw_offer_ids(s: Seq<RawTradeOffer>) -> Seq<TradeOfferId> {
    s.map_values(|o: RawTradeOffer| o.tradeofferid)
}

/// The set of the IDs of the offers of `s`.
pub open spec fn offer_id_set(s: Seq<RawTradeOffer>) -> Set<TradeOfferId> {
    Set::new(|id: TradeOfferId| exists|k: int| 0 <= k < s.len() && #[trigger] s[k].tradeofferid == id)
}

proof fn lemma_raw_offer_ids_set(s: Seq<RawTradeOffer>)
    ensures
        raw_offer_ids(s).to_set() == offer_id_set(s),
{
    assert forall|id: TradeOfferId| raw_offer_ids(s).to_set().contains(id) <==> offer_id_set(
        s,
    ).contains(id) by {
        if raw_offer_ids(s).to_set().contains(id) {
            let k = raw_offer_ids(s).index_of(id);
            assert(s[k].tradeofferid == id);
        }
        if offer_id_set(s).contains(id) {
            let k = choose|k: int| 0 <= k < s.len() && #[trigger] s[k].tradeofferid == id;
            assert(raw_offer_ids(s)[k] == id);
            assert(raw_offer_ids(s).contains(id));
        }
    }
    assert(raw_offer_ids(s).to_set() =~= offer_id_set(s));
}

/// Whether `id` is in `ids`.
fn contains_id(ids: &[TradeOfferId], id: TradeOfferId) -> (res: bool)
    ensures
        res == ids@.contains(id),
{
    let mut i: usize = 0;
    while i < ids.len()
        invariant
            i <= ids@.len(),
            forall|j: int| 0 <= j < i ==> ids@[j] != id,
        decreases ids@.len() - i,
    {
        if ids[i] == id {
            assert(ids@[i as int] == id);
            return true;
        }
        i = i + 1;
    }
    false
}

// ---------------------------------------------------------------------------------------------
// Finishing a poll.
// ---------------------------------------------------------------------------------------------

/// The state map after recording the states of the offers `s` in order.
pub open spec fn record_states(m: Map<TradeOfferId, TradeOfferState>, s: Seq<TradeOffer>) -> Map<
    TradeOfferId,
    TradeOfferState,
>
    decreases s.len(),
{
    if s.len() == 0 {
        m
    } else {
        record_states(m, s.drop_last()).insert(s.last().tradeofferid, s.last().trade_offer_state)
    }
}

/// The IDs of the offers `s`.
pub open spec fn offer_ids(s: Seq<TradeOffer>) -> Seq<TradeOfferId> {
    s.map_values(|o: TradeOffer| o.tradeofferid)
}

/// The previous state reported with the offer at `i` of `s`: the one in `p`, for the first
/// offer with its ID only.
pub open spec fn reported_prev(
    s: Seq<TradeOffer>,
    i: int,
    p: Map<TradeOfferId, TradeOfferState>,
) -> Option<TradeOfferState> {
    let id = s[i].tradeofferid;
    if offer_ids(s.subrange(0, i)).contains(id) || !p.contains_key(id) {
        None
    } else {
        Some(p[id])
    }
}

/// Finishes a poll with the offers that could be described: records their states and pairs
/// each with its previous state. The data counts as changed when any offer is reported; when
/// none is, nothing is recorded.
pub fn finish_poll(
    poll_data: &mut PollData,
    offers: Vec<TradeOffer>,
    prev_states: HashMap<TradeOfferId, TradeOfferState>,
) -> (res: Vec<(TradeOffer, Option<TradeOfferState>)>)
    ensures
        res@.len() == offers@.len(),
        forall|i: int|
            0 <= i < offers@.len() ==> (#[trigger] res@[i]).0 == offers@[i] && res@[i].1
                == reported_prev(offers@, i, prev_states@),
        final(poll_data).state_map@ == record_states(old(poll_data).state_map@, offers@),
        final(poll_data).changed == (old(poll_data).changed || offers@.len() > 0),
        final(poll_data).offers_since == old(poll_data).offers_since,
        final(poll_data).last_poll == old(poll_data).last_poll,
        final(poll_data).last_poll_full_update == old(poll_data).last_poll_full_update,
{
    let mut out: Vec<(TradeOffer, Option<TradeOfferState>)> = Vec::new();
    if offers.len() == 0 {
        return out;
    }
    poll_data.changed = true;
    let ghost all = offers@;
    let ghost p0 = prev_states@;
    let ghost m0 = poll_data.state_map@;
    let mut prev_states = prev_states;
    let mut rest = offers;
    let n = rest.len();
    let mut i: usize = 0;
    while i < n
        invariant
            n == all.len(),
            i <= n,
            rest@ == all.subrange(i as int, n as int),
            out@.len() == i,
            forall|j: int|
                0 <= j < i ==> (#[trigger] out@[j]).0 == all[j] && out@[j].1 == reported_prev(
                    all,
                    j,
                    p0,
                ),
            prev_states@ == p0.remove_keys(offer_ids(all.subrange(0, i as int)).to_set()),
            poll_data.state_map@ == record_states(m0, all.subrange(0, i as int)),
            poll_data.changed,
            poll_data.offers_since == old(poll_data).offers_since,
            poll_data.last_poll == old(poll_data).last_poll,
            poll_data.last_poll_full_update == old(poll_data).last_poll_full_update,
        decreases n - i,
    {
        let offer = rest.remove(0);
        let id = offer.tradeofferid;
        let prev = prev_states.remove(&id);
        poll_data.state_map.insert(id, offer.trade_offer_state);
        proof {
            let pre = all.subrange(0, i as int);
            assert(all.subrange(0, i + 1) =~= pre.push(offer));
            assert(all.subrange(0, i + 1).drop_last() =~= pre);
            assert(offer == all[i as int]);
            assert(rest@ =~= all.subrange(i + 1, n as int));
            assert(offer_ids(all.subrange(0, i + 1)) =~= offer_ids(pre).push(id));
            offer_ids(pre).lemma_push_to_set_commute(id);
            assert(prev_states@ =~= p0.remove_keys(offer_ids(all.subrange(0, i + 1)).to_set()));
            assert(all.subrange(0, i as int) == pre);
        }
        out.push((offer, prev));
        i = i + 1;
    }
    assert(all.subrange(0, n as int) =~= all);
    out
}

/// Checks whether a poll of type `poll_type` was called within 400 milliseconds of the last one
/// of its type at `now`, and records `now` as the time of the last one.
pub fn is_called_too_recently(
    poll_events: &mut crate::response::EntryMap<PollType, ServerTime>,
    poll_type: PollType,
    now: ServerTime,
) -> (res: bool)
    ensures
        final(poll_events)@ == old(poll_events)@.insert(poll_type, now),
        res == (old(poll_events)@.contains_key(poll_type) && now - old(poll_events)@[poll_type]
            < CALLED_TOO_RECENTLY_MILLIS),
{
    let last = match poll_events.get(&poll_type) {
        Some(t) => Some(*t),
        None => None,
    };
    poll_events.insert(poll_type, now);
    match last {
        Some(t) => !elapsed_at_least(t, now, CALLED_TOO_RECENTLY_MILLIS),
        None => false,
    }
}


proof fn lemma_record_states_at(m: Map<TradeOfferId, TradeOfferState>, s: Seq<TradeOffer>, i: int)
    requires
        0 <= i < s.len(),
        offer_ids(s).no_duplicates(),
    ensures
        record_states(m, s).contains_key(s[i].tradeofferid),
        record_states(m, s)[s[i].tradeofferid] == s[i].trade_offer_state,
    decreases s.len(),
{
    if i < s.len() - 1 {
        let rest = s.drop_last();
        assert(offer_ids(rest) =~= offer_ids(s).drop_last());
        assert(offer_ids(s)[i] != offer_ids(s)[s.len() - 1]);
        assert(rest[i] == s[i]);
        lemma_record_states_at(m, rest, i);
    }
}

/// Once a poll recorded the states of the offers it reported, an offer that comes back in the
/// same state is not reported again: a poll reports each change of state once.
pub proof fn law_poll_reports_change_once(
    m: Map<TradeOfferId, TradeOfferState>,
    s: Seq<TradeOffer>,
    i: int,
    again: RawTradeOffer,
)
    requires
        0 <= i < s.len(),
        offer_ids(s).no_duplicates(),
        again.tradeofferid == s[i].tradeofferid,
        again.trade_offer_state == s[i].trade_offer_state,
    ensures
        !is_reported(again, record_states(m, s)),
{
    lemma_record_states_at(m, s, i);
}

/// An offer whose state differs from the one a poll recorded is reported by the next poll, as
/// long as it has items.
pub proof fn law_poll_reports_new_state(
    m: Map<TradeOfferId, TradeOfferState>,
    s: Seq<TradeOffer>,
    i: int,
    changed: RawTradeOffer,
)
    requires
        0 <= i < s.len(),
        offer_ids(s).no_duplicates(),
        changed.tradeofferid == s[i].tradeofferid,
        changed.trade_offer_state != s[i].trade_offer_state,
        changed.items_to_receive@.len() > 0 || changed.items_to_give@.len() > 0,
    ensures
        is_reported(changed, record_states(m, s)),
{
    lemma_record_states_at(m, s, i);
}


/// A poll of type `Auto` or `FullUpdate` is a full update when asked for or when the last full
/// update is missing or `full_update_duration` or more old: it fetches every offer, active or
/// not, from the first second on. Otherwise an `Auto` poll fetches only active offers, from half
/// an hour before the stored `offers_since` (or from the first second, without one).
pub proof fn law_poll_full_update_when_stale(
    d: PollData,
    t: PollType,
    now: int,
    full_update_duration: int,
)
    requires
        poll_data_valid(d),
        t is Auto || t is FullUpdate,
    ensures
        ({
            let plan = plan_spec(d, t, now, full_update_duration);
            let stale = match d.last_poll_full_update {
                None => true,
                Some(last) => now - last >= full_update_duration,
            };
            &&& (t is FullUpdate || stale) ==> {
                &&& plan.is_full_update
                &&& !plan.active_only
                &&& !plan.options.active_only
                &&& plan.offers_since == 1
                &&& plan.options.historical_cutoff == Some(1000i64)
            }
            &&& (t is Auto && !stale) ==> {
                &&& !plan.is_full_update
                &&& plan.active_only
                &&& plan.options.active_only
                &&& plan.offers_since == match d.offers_since {
                    Some(since) => since / 1000 - 1800,
                    None => 1,
                }
                &&& plan.options.historical_cutoff == Some((plan.offers_since * 1000) as i64)
            }
            &&& plan.options.get_sent_offers && plan.options.get_received_offers
            &&& !plan.options.historical_only
            &&& !plan.options.get_descriptions
        }),
{
}

/// A `NewOffers` poll fetches only active offers, with descriptions, and is never a full
/// update; an `OffersSince(date)` poll fetches every offer from the second of `date` on, and is
/// never a full update either.
pub proof fn law_poll_new_offers_and_since(d: PollData, t: PollType, now: int, full_update_duration: int)
    requires
        poll_data_valid(d),
        t matches PollType::OffersSince(date) ==> valid_time(date as int),
    ensures
        ({
            let plan = plan_spec(d, t, now, full_update_duration);
            &&& t is NewOffers ==> plan.active_only && plan.options.active_only
                && !plan.is_full_update && plan.options.get_descriptions
            &&& (t matches PollType::OffersSince(date) ==> !plan.active_only
                && !plan.options.active_only && !plan.is_full_update
                && !plan.options.get_descriptions && plan.offers_since == date / 1000
                && plan.options.historical_cutoff == Some(((date / 1000) * 1000) as i64))
        }),
{
}

/// A poll asked for again, of the same type, within 400 milliseconds of the last one is
/// ignored; one asked for later is not.
pub proof fn law_repeated_poll_ignored(
    events: Map<PollType, ServerTime>,
    poll_type: PollType,
    first: ServerTime,
    second: ServerTime,
)
    ensures
        ({
            let after = events.insert(poll_type, first);
            (after.contains_key(poll_type) && second - after[poll_type] < CALLED_TOO_RECENTLY_MILLIS)
                == (second - first < CALLED_TOO_RECENTLY_MILLIS)
        }),
{
}

/// Right after a full update is recorded at `now`, the last full update is not stale for the
/// whole update interval.
pub proof fn law_full_update_fresh(d: PollData, now: ServerTime, later: ServerTime, interval: Millis)
    requires
        d.last_poll_full_update == Some(now),
        later - now < interval,
    ensures
        !full_poll_stale(d, later as int, interval as int),
{
}


/// A poll cancels only our own offers that are still active (or awaiting confirmation), have
/// no trade, and were last updated before the cancel time: every ID it cancels is that of such
/// an offer among those it fetched.
pub proof fn law_poll_cancels_only_stale_own_offers(s: Seq<RawTradeOffer>, cancel_time: int, k: int)
    requires
        0 <= k < cancel_candidates(s, cancel_time).len(),
    ensures
        exists|i: int|
            0 <= i < s.len() && #[trigger] s[i].tradeofferid == cancel_candidates(s, cancel_time)[k]
                && is_cancel_candidate(s[i], cancel_time),
    decreases s.len(),
{
    let rest = s.drop_last();
    if is_cancel_candidate(s.last(), cancel_time) && k == cancel_candidates(rest, cancel_time).len() {
        assert(s[s.len() - 1].tradeofferid == cancel_candidates(s, cancel_time)[k]);
    } else {
        law_poll_cancels_only_stale_own_offers(rest, cancel_time, k);
        let i = choose|i: int|
            0 <= i < rest.len() && #[trigger] rest[i].tradeofferid == cancel_candidates(
                rest,
                cancel_time,
            )[k] && is_cancel_candidate(rest[i], cancel_time);
        assert(s[i] == rest[i]);
    }
}

/// A poll cancels exactly the offers that are ours, still active or awaiting confirmation, not
/// in progress as a trade, and last updated before the cancel time.
pub proof fn law_poll_cancels_stale_own_offers(s: Seq<RawTradeOffer>, cancel_time: int, id: TradeOfferId)
    ensures
        cancel_candidates(s, cancel_time).contains(id) <==> exists|i: int|
            0 <= i < s.len() && (#[trigger] s[i]).tradeofferid == id && (s[i].trade_offer_state
                == TradeOfferState::Active || s[i].trade_offer_state
                == TradeOfferState::CreatedNeedsConfirmation) && s[i].is_our_offer
                && s[i].time_updated < cancel_time && s[i].tradeid is None,
    decreases s.len(),
{
    if s.len() > 0 {
        let rest = s.drop_last();
        law_poll_cancels_stale_own_offers(rest, cancel_time, id);
        let c0 = cancel_candidates(rest, cancel_time);
        let c = cancel_candidates(s, cancel_time);
        let n = s.len() - 1;
        assert forall|i: int| 0 <= i < rest.len() implies #[trigger] rest[i] == s[i] by {}
        if c.contains(id) {
            let k = choose|k: int| 0 <= k < c.len() && c[k] == id;
            if is_cancel_candidate(s.last(), cancel_time) && k == c0.len() {
                assert(s[n] == s.last());
            } else {
                assert(c0[k] == id);
                let i = choose|i: int|
                    0 <= i < rest.len() && (#[trigger] rest[i]).tradeofferid == id && (
                    rest[i].trade_offer_state == TradeOfferState::Active
                        || rest[i].trade_offer_state == TradeOfferState::CreatedNeedsConfirmation)
                        && rest[i].is_our_offer && rest[i].time_updated < cancel_time
                        && rest[i].tradeid is None;
                assert(s[i] == rest[i]);
            }
        }
        if exists|i: int|
            0 <= i < s.len() && (#[trigger] s[i]).tradeofferid == id && (s[i].trade_offer_state
                == TradeOfferState::Active || s[i].trade_offer_state
                == TradeOfferState::CreatedNeedsConfirmation) && s[i].is_our_offer
                && s[i].time_updated < cancel_time && s[i].tradeid is None {
            let i = choose|i: int|
                0 <= i < s.len() && (#[trigger] s[i]).tradeofferid == id && (s[i].trade_offer_state
                    == TradeOfferState::Active || s[i].trade_offer_state
                    == TradeOfferState::CreatedNeedsConfirmation) && s[i].is_our_offer
                    && s[i].time_updated < cancel_time && s[i].tradeid is None;
            if i == n {
                assert(c[c0.len() as int] == id);
            } else {
                assert(rest[i] == s[i]);
                assert(c0.contains(id));
                let k = choose|k: int| 0 <= k < c0.len() && c0[k] == id;
                if is_cancel_candidate(s.last(), cancel_time) {
                    assert(c[k] == id);
                } else {
                    assert(c[k] == id);
                }
            }
        }
    }
}

/// The state an offer of a poll has once the poll's cancellations are applied.
pub open spec fn state_after_cancel(o: RawTradeOffer, cancelled: Seq<TradeOfferId>) -> TradeOfferState {
    if cancelled.contains(o.tradeofferid) {
        TradeOfferState::Canceled
    } else {
        o.trade_offer_state
    }
}

/// `x` is the offer `o` that came back from a poll, with its state after the poll's
/// cancellations, and it is to be reported: it has items, and that state is new or differs
/// from the state recorded in `m`.
pub open spec fn reported_from(
    x: RawTradeOffer,
    o: RawTradeOffer,
    cancelled: Seq<TradeOfferId>,
    m: Map<TradeOfferId, TradeOfferState>,
) -> bool {
    &&& x.tradeofferid == o.tradeofferid
    &&& x.trade_offer_state == state_after_cancel(o, cancelled)
    &&& x.items_to_give == o.items_to_give
    &&& x.items_to_receive == o.items_to_receive
    &&& (o.items_to_give@.len() > 0 || o.items_to_receive@.len() > 0)
    &&& (!m.contains_key(o.tradeofferid) || m[o.tradeofferid] != state_after_cancel(o, cancelled))
}

proof fn lemma_reported_source(
    s: Seq<RawTradeOffer>,
    cancelled: Seq<TradeOfferId>,
    m: Map<TradeOfferId, TradeOfferState>,
    k: int,
) -> (i: int)
    requires
        0 <= k < reported_offers(s, cancelled, m).len(),
    ensures
        0 <= i < s.len(),
        reported_from(reported_offers(s, cancelled, m)[k], s[i], cancelled, m),
    decreases s.len(),
{
    let rest = s.drop_last();
    let r0 = reported_offers(rest, cancelled, m);
    let o = after_cancel(s.last(), cancelled);
    if is_reported(o, m) && k == r0.len() {
        assert(s[s.len() - 1] == s.last());
        s.len() - 1
    } else {
        let i = lemma_reported_source(rest, cancelled, m, k);
        assert(s[i] == rest[i]);
        i
    }
}

/// Each offer that a poll reports is one of the offers that came back, with its state after
/// the poll's cancellations, and it has items and a state that is new or differs from the
/// state recorded.
pub proof fn law_poll_reported_offer_came_back(
    s: Seq<RawTradeOffer>,
    cancelled: Seq<TradeOfferId>,
    m: Map<TradeOfferId, TradeOfferState>,
    k: int,
)
    requires
        0 <= k < reported_offers(s, cancelled, m).len(),
    ensures
        exists|i: int|
            0 <= i < s.len() && #[trigger] reported_from(
                reported_offers(s, cancelled, m)[k],
                s[i],
                cancelled,
                m,
            ),
{
    let i = lemma_reported_source(s, cancelled, m, k);
    assert(reported_from(reported_offers(s, cancelled, m)[k], s[i], cancelled, m));
}

/// Each offer that came back from a poll with items, and with a state (after the poll's
/// cancellations) that is new or differs from the state recorded, is reported.
pub proof fn law_poll_reports_changed_offers(
    s: Seq<RawTradeOffer>,
    cancelled: Seq<TradeOfferId>,
    m: Map<TradeOfferId, TradeOfferState>,
)
    ensures
        forall|i: int|
            0 <= i < s.len() && ((#[trigger] s[i]).items_to_give@.len() > 0
                || s[i].items_to_receive@.len() > 0) && (!m.contains_key(s[i].tradeofferid)
                || m[s[i].tradeofferid] != state_after_cancel(s[i], cancelled))
                ==> reported_offers(s, cancelled, m).contains(after_cancel(s[i], cancelled)),
    decreases s.len(),
{
    if s.len() > 0 {
        let rest = s.drop_last();
        law_poll_reports_changed_offers(rest, cancelled, m);
        let r0 = reported_offers(rest, cancelled, m);
        let r = reported_offers(s, cancelled, m);
        let n = s.len() - 1;
        let o = after_cancel(s.last(), cancelled);
        assert forall|i: int|
            0 <= i < s.len() && ((#[trigger] s[i]).items_to_give@.len() > 0
                || s[i].items_to_receive@.len() > 0) && (!m.contains_key(s[i].tradeofferid)
                || m[s[i].tradeofferid] != state_after_cancel(s[i], cancelled))
            implies r.contains(after_cancel(s[i], cancelled)) by {
            if i == n {
                assert(s[i] == s.last());
                assert(r[r0.len() as int] == o);
            } else {
                assert(rest[i] == s[i]);
                assert(r0.contains(after_cancel(rest[i], cancelled)));
                let k = choose|k: int| 0 <= k < r0.len() && r0[k] == after_cancel(rest[i], cancelled);
                assert(r[k] == r0[k]);
            }
        }
    }
}

/// An offer that a poll cancelled is reported as cancelled.
pub proof fn law_cancelled_offer_reported_canceled(o: RawTradeOffer, cancelled: Seq<TradeOfferId>)
    requires
        cancelled.contains(o.tradeofferid),
    ensures
        after_cancel(o, cancelled).trade_offer_state == TradeOfferState::Canceled,
        after_cancel(o, cancelled).tradeofferid == o.tradeofferid,
{
}

} // verus!
