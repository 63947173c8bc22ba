//! Models of responses: raw assets and offers as Steam sends them, and the same combined with
//! their classinfo descriptions.
use vstd::prelude::*;
use std::sync::Arc;
use crate::enums::{ConfirmationMethod, TradeOfferState, TradeStatus};
use crate::error::{MissingClassInfoError, TryIntoNewAssetError};
use crate::steamid::{individual_steamid, steamid_from_account_id};
use crate::types::{AppId, ContextId, AssetId, Amount, ClassId, InstanceId, TradeOfferId, TradeId, ServerTime, ClassInfoClass, ClassInfoAppClass};

verus! {

// ---------------------------------------------------------------------------------------------
// Association lists.
// ---------------------------------------------------------------------------------------------

/// Keys that can be compared in executable code.
pub trait MapKey: Sized {
    /// Whether the two keys are the same.
    fn key_eq(&self, other: &Self) -> (res: bool)
        ensures
            res == (*self == *other),
    ;
}

impl MapKey for (u32, u64, Option<u64>) {
    fn key_eq(&self, other: &Self) -> (res: bool) {
        self.0 == other.0 && self.1 == other.1 && match (self.2, other.2) {
            (Some(a), Some(b)) => a == b,
            (None, None) => true,
            _ => false,
        }
    }
}

impl MapKey for (u64, Option<u64>) {
    fn key_eq(&self, other: &Self) -> (res: bool) {
        self.0 == other.0 && match (self.1, other.1) {
            (Some(a), Some(b)) => a == b,
            (None, None) => true,
            _ => false,
        }
    }
}

impl MapKey for crate::polling::PollType {
    fn key_eq(&self, other: &Self) -> (res: bool) {
        *self == *other
    }
}

/// The map that a list of entries stands for: a later entry for a key replaces an earlier one,
/// as when the entries are collected into a `HashMap`.
pub open spec fn entries_map<K, V>(s: Seq<(K, V)>) -> Map<K, V>
    decreases s.len(),
{
    if s.len() == 0 {
        Map::empty()
    } else {
        entries_map(s.drop_last()).insert(s.last().0, s.last().1)
    }
}

/// The last position of an entry for `k`.
pub open spec fn last_entry<K, V>(s: Seq<(K, V)>, k: K) -> Option<int>
    decreases s.len(),
{
    if s.len() == 0 {
        None
    } else if s.last().0 == k {
        Some(s.len() - 1)
    } else {
        last_entry(s.drop_last(), k)
    }
}

proof fn lemma_entries_map<K, V>(s: Seq<(K, V)>, k: K)
    ensures
        match last_entry(s, k) {
            Some(i) => 0 <= i < s.len() && s[i].0 == k && entries_map(s).contains_key(k)
                && entries_map(s)[k] == s[i].1 && forall|j: int| i < j < s.len() ==> s[j].0 != k,
            None => !entries_map(s).contains_key(k) && forall|j: int|
                0 <= j < s.len() ==> s[j].0 != k,
        },
    decreases s.len(),
{
    if s.len() > 0 {
        lemma_entries_map(s.drop_last(), k);
        assert forall|j: int| 0 <= j < s.len() - 1 implies s[j] == s.drop_last()[j] by {}
    }
}

/// A map kept as a list of entries, for keys that std's hash maps have no model of.
#[derive(Debug, Clone)]
pub struct EntryMap<K, V> {
    entries: Vec<(K, V)>,
}

impl<K, V> EntryMap<K, V> {
    /// The entries, oldest first; a later entry for a key overrides an earlier one.
    pub closed spec fn entry_list(&self) -> Seq<(K, V)> {
        self.entries@
    }
}

impl<K, V> View for EntryMap<K, V> {
    type V = Map<K, V>;

    open spec fn view(&self) -> Map<K, V> {
        entries_map(self.entry_list())
    }
}

/// `s` with `(k, v)` in place of the last entry for `k`, or added at the end where there is
/// none.
pub open spec fn entries_with<K, V>(s: Seq<(K, V)>, k: K, v: V) -> Seq<(K, V)> {
    match last_entry(s, k) {
        Some(i) => s.update(i, (k, v)),
        None => s.push((k, v)),
    }
}

proof fn lemma_entries_with<K, V>(s: Seq<(K, V)>, k: K, v: V)
    ensures
        entries_map(entries_with(s, k, v)) == entries_map(s).insert(k, v),
        entries_with(s, k, v).len() == s.len() || entries_with(s, k, v).len() == s.len() + 1,
    decreases s.len(),
{
    lemma_entries_map(s, k);
    match last_entry(s, k) {
        Some(i) => {
            if i == s.len() - 1 {
                assert(s.update(i, (k, v)).drop_last() =~= s.drop_last());
                assert(entries_map(s.update(i, (k, v))) =~= entries_map(s).insert(k, v));
            } else {
                let t = s.drop_last();
                assert(last_entry(t, k) == Some(i));
                lemma_entries_with(t, k, v);
                assert(s.update(i, (k, v)).drop_last() =~= t.update(i, (k, v)));
                assert(s.update(i, (k, v)).last() == s.last());
                assert(entries_map(s.update(i, (k, v))) =~= entries_map(s).insert(k, v));
            }
        },
        None => {
            assert(s.push((k, v)).drop_last() =~= s);
        },
    }
}

impl<K: MapKey, V> EntryMap<K, V> {
    /// An empty map.
    pub fn new() -> (res: Self)
        ensures
            res.entry_list() == Seq::<(K, V)>::empty(),
            res@ == Map::<K, V>::empty(),
    {
        EntryMap { entries: Vec::new() }
    }

    /// The map of the entries `entries`, oldest first; a later entry for a key overrides an
    /// earlier one.
    pub fn from_entries(entries: Vec<(K, V)>) -> (res: Self)
        ensures
            res.entry_list() == entries@,
    {
        EntryMap { entries }
    }

    /// The entries, oldest first.
    pub fn into_entries(self) -> (res: Vec<(K, V)>)
        ensures
            res@ == self.entry_list(),
    {
        self.entries
    }

    /// Moves the entries of `other` after those of this map, so that they override them.
    pub fn append(&mut self, other: Self)
        ensures
            final(self).entry_list() == old(self).entry_list() + other.entry_list(),
    {
        let mut rest = other.entries;
        self.entries.append(&mut rest);
    }

    /// The position of the last entry for `k`, if any.
    fn last_index(&self, k: &K) -> (res: Option<usize>)
        ensures
            match res {
                Some(i) => last_entry(self.entries@, *k) == Some(i as int),
                None => last_entry(self.entries@, *k) is None,
            },
    {
        let mut i = self.entries.len();
        while i > 0
            invariant
                i <= self.entries@.len(),
                forall|j: int| i <= j < self.entries@.len() ==> self.entries@[j].0 != *k,
            decreases i,
        {
            if self.entries[i - 1].0.key_eq(k) {
                proof {
                    lemma_entries_map(self.entries@, *k);
                    match last_entry(self.entries@, *k) {
                        Some(l) => {
                            if l < i - 1 {
                                assert(self.entries@[i - 1].0 == *k);
                            }
                            if l > i - 1 {
                                assert(self.entries@[l].0 == *k);
                            }
                        },
                        None => {
                            assert(self.entries@[i - 1].0 == *k);
                        },
                    }
                }
                return Some(i - 1);
            }
            i = i - 1;
        }
        proof {
            lemma_entries_map(self.entries@, *k);
            if let Some(l) = last_entry(self.entries@, *k) {
                assert(self.entries@[l].0 == *k);
            }
        }
        None
    }

    /// Inserts `v` for `k`, replacing the entry of any earlier value in place.
    pub fn insert(&mut self, k: K, v: V)
        ensures
            final(self).entry_list() == entries_with(old(self).entry_list(), k, v),
            final(self)@ == old(self)@.insert(k, v),
    {
        proof {
            lemma_entries_with(self.entries@, k, v);
            lemma_entries_map(self.entries@, k);
        }
        match self.last_index(&k) {
            Some(i) => {
                self.entries.set(i, (k, v));
            },
            None => {
                self.entries.push((k, v));
            },
        }
    }

    /// The value for `k`, if any.
    pub fn get(&self, k: &K) -> (res: Option<&V>)
        ensures
            match res {
                Some(v) => self@.contains_key(*k) && *v == self@[*k],
                None => !self@.contains_key(*k),
            },
    {
        proof {
            lemma_entries_map(self.entries@, *k);
        }
        match self.last_index(k) {
            Some(i) => Some(&self.entries[i].1),
            None => None,
        }
    }

    /// The number of entries.
    pub fn num_entries(&self) -> (res: usize)
        ensures
            res == self.entry_list().len(),
    {
        self.entries.len()
    }
}

/// Shares a classinfo.
///
/// Calls `Arc::clone` of std, which std documents as making another pointer to the same
/// allocation; the contract claims that the result points to the same value.
#[verifier::external_body]
pub(crate) fn share(classinfo: &Arc<ClassInfo>) -> (res: Arc<ClassInfo>)
    ensures
        res == *classinfo,
{
    Arc::clone(classinfo)
}

// ---------------------------------------------------------------------------------------------
// Descriptions.
// ---------------------------------------------------------------------------------------------

/// The description of a class of items.
#[derive(Debug, Clone, PartialEq, Eq)]
pub struct ClassInfo {
    /// The name.
    pub name: String,
    /// The name on the market.
    pub market_name: String,
    /// The unique name on the market.
    pub market_hash_name: String,
    /// Whether items of this class can be traded.
    pub tradable: bool,
    /// Whether items of this class can be sold on the market.
    pub marketable: bool,
    /// Whether items of this class are commodities.
    pub commodity: bool,
}

/// Classinfos keyed by app ID, class ID and instance ID.
pub type ClassInfoMap = EntryMap<ClassInfoClass, Arc<ClassInfo>>;

/// Classinfos of one app keyed by class ID and instance ID.
pub type ClassInfoAppMap = EntryMap<ClassInfoAppClass, Arc<ClassInfo>>;

// ---------------------------------------------------------------------------------------------
// Assets.
// ---------------------------------------------------------------------------------------------

/// An item with its description.
#[derive(Debug, Clone)]
pub struct Asset {
    /// The app ID e.g. `440` for Team Fortress 2.
    pub appid: AppId,
    /// The context ID.
    pub contextid: ContextId,
    /// The unique asset ID. This value is unique to the item's `appid` and `contextid`.
    pub assetid: AssetId,
    /// The amount. If this item is not stackable the amount will be `1`.
    pub amount: Amount,
    /// `true` if the item no longer exists in the inventory.
    pub missing: bool,
    /// The description of the item.
    pub classinfo: Arc<ClassInfo>,
}

/// An item as Steam sends it, without its description.
#[derive(Debug, Clone, Copy, PartialEq, Eq)]
pub struct RawAsset {
    /// The app ID.
    pub appid: AppId,
    /// The context ID.
    pub contextid: ContextId,
    /// The unique asset ID.
    pub assetid: AssetId,
    /// The amount.
    pub amount: Amount,
    /// `true` if the item no longer exists in the inventory.
    pub missing: bool,
    /// The ID of the classinfo.
    pub classid: ClassId,
    /// The specific instance ID of the classinfo belonging to the class ID.
    pub instanceid: InstanceId,
}

/// An asset belonging to a receipt.
#[derive(Debug, Clone, Copy, PartialEq, Eq)]
pub struct RawReceiptAsset {
    /// The app ID.
    pub appid: AppId,
    /// The context ID.
    pub contextid: ContextId,
    /// The unique asset ID.
    pub assetid: AssetId,
    /// The amount.
    pub amount: Amount,
    /// The ID of the classinfo.
    pub classid: ClassId,
    /// The specific instance ID of the classinfo belonging to the class ID.
    pub instanceid: InstanceId,
}

/// An asset from the old inventory API.
#[derive(Debug, Clone, Copy, PartialEq, Eq)]
pub struct RawAssetOld {
    /// The unique asset ID.
    pub assetid: AssetId,
    /// The amount.
    pub amount: Amount,
    /// The ID of the classinfo.
    pub classid: ClassId,
    /// The specific instance ID of the classinfo belonging to the class ID.
    pub instanceid: InstanceId,
}

/// The key of the classinfo of a raw asset.
pub open spec fn class_of(a: RawAsset) -> ClassInfoClass {
    (a.appid, a.classid, a.instanceid)
}

/// The error for a raw asset whose classinfo is missing.
pub open spec fn missing_of(a: RawAsset) -> MissingClassInfoError {
    MissingClassInfoError { appid: a.appid, classid: a.classid, instanceid: a.instanceid }
}

/// `a` is `raw` combined with the classinfo `c`.
pub open spec fn is_combined(a: Asset, raw: RawAsset, c: Arc<ClassInfo>) -> bool {
    &&& a.appid == raw.appid
    &&& a.contextid == raw.contextid
    &&& a.assetid == raw.assetid
    &&& a.amount == raw.amount
    &&& a.missing == raw.missing
    &&& a.classinfo == c
}

/// The first asset of `s` whose classinfo `m` lacks, if any.
pub open spec fn first_missing(s: Seq<RawAsset>, m: Map<ClassInfoClass, Arc<ClassInfo>>) -> Option<
    int,
>
    decreases s.len(),
{
    if s.len() == 0 {
        None
    } else {
        match first_missing(s.drop_last(), m) {
            Some(i) => Some(i),
            None => if m.contains_key(class_of(s.last())) {
                None
            } else {
                Some(s.len() - 1)
            },
        }
    }
}

proof fn lemma_first_missing(s: Seq<RawAsset>, m: Map<ClassInfoClass, Arc<ClassInfo>>)
    ensures
        match first_missing(s, m) {
            Some(i) => 0 <= i < s.len() && !m.contains_key(class_of(s[i])) && forall|j: int|
                0 <= j < i ==> m.contains_key(class_of(s[j])),
            None => forall|j: int| 0 <= j < s.len() ==> m.contains_key(class_of(s[j])),
        },
    decreases s.len(),
{
    if s.len() > 0 {
        lemma_first_missing(s.drop_last(), m);
        assert forall|j: int| 0 <= j < s.len() - 1 implies s[j] == s.drop_last()[j] by {}
    }
}

/// The result of combining the raw assets `s` with the classinfos of `m`: `Ok` with the
/// assets in order when every classinfo is there, else the error for the first missing one.
pub open spec fn combine_ok(
    res: Result<Seq<Asset>, MissingClassInfoError>,
    s: Seq<RawAsset>,
    m: Map<ClassInfoClass, Arc<ClassInfo>>,
) -> bool {
    match first_missing(s, m) {
        Some(i) => res == Err::<Seq<Asset>, MissingClassInfoError>(missing_of(s[i])),
        None => res is Ok && res->Ok_0.len() == s.len() && forall|j: int|
            0 <= j < s.len() ==> #[trigger] is_combined(res->Ok_0[j], s[j], m[class_of(s[j])]),
    }
}

/// Combines raw assets with the classinfos of `map`, failing on the first missing one.
pub fn collect_assets(assets: &Vec<RawAsset>, map: &ClassInfoMap) -> (res: Result<
    Vec<Asset>,
    MissingClassInfoError,
>)
    ensures
        combine_ok(
            match res {
                Ok(v) => Ok(v@),
                Err(e) => Err(e),
            },
            assets@,
            map@,
        ),
{
    let mut out: Vec<Asset> = Vec::new();
    let mut i: usize = 0;
    while i < assets.len()
        invariant
            i <= assets@.len(),
            out@.len() == i,
            forall|j: int| 0 <= j < i ==> map@.contains_key(class_of(assets@[j])),
            forall|j: int|
                0 <= j < i ==> #[trigger] is_combined(
                    out@[j],
                    assets@[j],
                    map@[class_of(assets@[j])],
                ),
        decreases assets@.len() - i,
    {
        let a = assets[i];
        let class = (a.appid, a.classid, a.instanceid);
        match map.get(&class) {
            Some(classinfo) => {
                out.push(
                    Asset {
                        appid: a.appid,
                        contextid: a.contextid,
                        assetid: a.assetid,
                        amount: a.amount,
                        missing: a.missing,
                        classinfo: share(classinfo),
                    },
                );
            },
            None => {
                proof {
                    lemma_first_missing(assets@, map@);
                    match first_missing(assets@, map@) {
                        Some(k) => {
                            if k < i {
                                assert(map@.contains_key(class_of(assets@[k])));
                            }
                            if k > i {
                                assert(map@.contains_key(class_of(assets@[i as int])));
                            }
                        },
                        None => {
                            assert(map@.contains_key(class_of(assets@[i as int])));
                        },
                    }
                }
                return Err(
                    MissingClassInfoError {
                        appid: a.appid,
                        classid: a.classid,
                        instanceid: a.instanceid,
                    },
                );
            },
        }
        i = i + 1;
    }
    proof {
        lemma_first_missing(assets@, map@);
        if let Some(k) = first_missing(assets@, map@) {
            assert(map@.contains_key(class_of(assets@[k])));
        }
    }
    Ok(out)
}

// ---------------------------------------------------------------------------------------------
// Trade offers.
// ---------------------------------------------------------------------------------------------

/// A trade offer as Steam sends it, without its items.
#[derive(Debug, Clone)]
pub struct RawTradeOfferNoItems {
    /// The ID for this offer.
    pub tradeofferid: TradeOfferId,
    /// The trade ID for this offer, present once the offer was accepted.
    pub tradeid: Option<TradeId>,
    /// The account ID of our partner.
    pub accountid_other: u32,
    /// The message included in the offer.
    pub message: Option<String>,
    /// Whether this offer was created by us or not.
    pub is_our_offer: bool,
    /// Whether this offer originated from a real time trade.
    pub from_real_time_trade: bool,
    /// The time before the offer expires if it has not been acted on.
    pub expiration_time: ServerTime,
    /// The time this offer was created.
    pub time_created: ServerTime,
    /// The time this offer last had an action e.g. accepting or declining the offer.
    pub time_updated: ServerTime,
    /// The state of this offer.
    pub trade_offer_state: TradeOfferState,
    /// The end date of the escrow, the epoch when the offer is not in escrow.
    pub escrow_end_date: ServerTime,
    /// The confirmation method for this offer.
    pub confirmation_method: ConfirmationMethod,
}

/// A trade offer as Steam sends it.
#[derive(Debug, Clone)]
pub struct RawTradeOffer {
    /// The ID for this offer.
    pub tradeofferid: TradeOfferId,
    /// The trade ID for this offer, present once the offer was accepted.
    pub tradeid: Option<TradeId>,
    /// The account ID of our partner.
    pub accountid_other: u32,
    /// The message included in the offer, `None` when empty or not present.
    pub message: Option<String>,
    /// The items we're receiving in this offer.
    pub items_to_receive: Vec<RawAsset>,
    /// The items we're giving in this offer.
    pub items_to_give: Vec<RawAsset>,
    /// Whether this offer was created by us or not.
    pub is_our_offer: bool,
    /// Whether this offer originated from a real time trade.
    pub from_real_time_trade: bool,
    /// The time before the offer expires if it has not been acted on.
    pub expiration_time: ServerTime,
    /// The time this offer was created.
    pub time_created: ServerTime,
    /// The time this offer last had an action e.g. accepting or declining the offer.
    pub time_updated: ServerTime,
    /// The state of this offer.
    pub trade_offer_state: TradeOfferState,
    /// The end date if this trade is in escrow. `None` when this offer is not in escrow.
    pub escrow_end_date: Option<ServerTime>,
    /// The confirmation method for this offer.
    pub confirmation_method: ConfirmationMethod,
}

/// A trade offer with the descriptions of its items.
#[derive(Debug, Clone)]
pub struct TradeOffer {
    /// The ID for this offer.
    pub tradeofferid: TradeOfferId,
    /// The trade ID for this offer, present once the offer was accepted.
    pub tradeid: Option<TradeId>,
    /// The 64-bit Steam ID of our partner.
    pub partner: u64,
    /// The message included in the offer.
    pub message: Option<String>,
    /// The items we're receiving in this offer.
    pub items_to_receive: Vec<Asset>,
    /// The items we're giving in this offer.
    pub items_to_give: Vec<Asset>,
    /// Whether this offer was created by us or not.
    pub is_our_offer: bool,
    /// Whether this offer originated from a real time trade.
    pub from_real_time_trade: bool,
    /// The time before the offer expires if it has not been acted on.
    pub expiration_time: ServerTime,
    /// The time this offer was created.
    pub time_created: ServerTime,
    /// The time this offer last had an action.
    pub time_updated: ServerTime,
    /// The state of this offer.
    pub trade_offer_state: TradeOfferState,
    /// The end date if this trade is in escrow.
    pub escrow_end_date: Option<ServerTime>,
    /// The confirmation method for this offer.
    pub confirmation_method: ConfirmationMethod,
}

/// `o` carries over the fields of `raw` other than its items.
pub open spec fn offer_fields_from(o: TradeOffer, raw: RawTradeOffer) -> bool {
    &&& o.tradeofferid == raw.tradeofferid
    &&& o.tradeid == raw.tradeid
    &&& o.partner == individual_steamid(raw.accountid_other)
    &&& o.message == raw.message
    &&& o.is_our_offer == raw.is_our_offer
    &&& o.from_real_time_trade == raw.from_real_time_trade
    &&& o.expiration_time == raw.expiration_time
    &&& o.time_created == raw.time_created
    &&& o.time_updated == raw.time_updated
    &&& o.trade_offer_state == raw.trade_offer_state
    &&& o.escrow_end_date == raw.escrow_end_date
    &&& o.confirmation_method == raw.confirmation_method
}

/// `res` is what combining `raw` with the classinfos `m` gives: the offer with its items
/// described, or the error for the first missing classinfo, items to give first.
pub open spec fn combine_offer_ok(
    res: Result<TradeOffer, MissingClassInfoError>,
    raw: RawTradeOffer,
    m: Map<ClassInfoClass, Arc<ClassInfo>>,
) -> bool {
    match first_missing(raw.items_to_give@, m) {
        Some(i) => res == Err::<TradeOffer, MissingClassInfoError>(
            missing_of(raw.items_to_give@[i]),
        ),
        None => match first_missing(raw.items_to_receive@, m) {
            Some(i) => res == Err::<TradeOffer, MissingClassInfoError>(
                missing_of(raw.items_to_receive@[i]),
            ),
            None => res is Ok && offer_fields_from(res->Ok_0, raw) && combine_ok(
                Ok(res->Ok_0.items_to_give@),
                raw.items_to_give@,
                m,
            ) && combine_ok(Ok(res->Ok_0.items_to_receive@), raw.items_to_receive@, m),
        },
    }
}

/// `a` carries what the raw asset `r` says of its item (app, context, asset ID, amount, and
/// whether it is missing), with the classinfo of its class in `m`.
pub open spec fn asset_keeps(a: Asset, r: RawAsset, m: Map<ClassInfoClass, Arc<ClassInfo>>) -> bool {
    &&& a.appid == r.appid
    &&& a.contextid == r.contextid
    &&& a.assetid == r.assetid
    &&& a.amount == r.amount
    &&& a.missing == r.missing
    &&& m.contains_key((r.appid, r.classid, r.instanceid))
    &&& a.classinfo == m[(r.appid, r.classid, r.instanceid)]
}

/// Raw assets combined with their descriptions give one asset per raw asset, in order, each
/// with the raw asset's amount and IDs and the classinfo of its class.
pub proof fn law_combined_assets_keep(v: Seq<Asset>, s: Seq<RawAsset>, m: Map<ClassInfoClass, Arc<ClassInfo>>)
    requires
        combine_ok(Ok(v), s, m),
    ensures
        v.len() == s.len(),
        forall|j: int| 0 <= j < s.len() ==> asset_keeps(#[trigger] v[j], s[j], m),
{
    lemma_first_missing(s, m);
    assert forall|j: int| 0 <= j < s.len() implies asset_keeps(#[trigger] v[j], s[j], m) by {
        assert(is_combined(v[j], s[j], m[class_of(s[j])]));
        assert(m.contains_key(class_of(s[j])));
    }
}

/// An offer combined with its descriptions keeps its items one for one and in order, each with
/// its amount and IDs, and the offer's fields, with the partner's 64-bit Steam ID made of the
/// account ID.
pub proof fn law_offer_keeps_items(res: TradeOffer, raw: RawTradeOffer, m: Map<ClassInfoClass, Arc<ClassInfo>>)
    requires
        combine_offer_ok(Ok(res), raw, m),
    ensures
        res.items_to_give@.len() == raw.items_to_give@.len(),
        forall|j: int|
            0 <= j < raw.items_to_give@.len() ==> asset_keeps(
                #[trigger] res.items_to_give@[j],
                raw.items_to_give@[j],
                m,
            ),
        res.items_to_receive@.len() == raw.items_to_receive@.len(),
        forall|j: int|
            0 <= j < raw.items_to_receive@.len() ==> asset_keeps(
                #[trigger] res.items_to_receive@[j],
                raw.items_to_receive@[j],
                m,
            ),
        res.tradeofferid == raw.tradeofferid,
        res.tradeid == raw.tradeid,
        res.partner == raw.accountid_other + 76561197960265728,
        res.message == raw.message,
        res.is_our_offer == raw.is_our_offer,
        res.time_created == raw.time_created,
        res.time_updated == raw.time_updated,
        res.trade_offer_state == raw.trade_offer_state,
        res.escrow_end_date == raw.escrow_end_date,
{
    law_combined_assets_keep(res.items_to_give@, raw.items_to_give@, m);
    law_combined_assets_keep(res.items_to_receive@, raw.items_to_receive@, m);
}

impl RawTradeOffer {
    /// Attempts to combine this offer into a [`TradeOffer`] using the given map.
    pub fn try_combine_classinfos(self, map: &ClassInfoMap) -> (res: Result<
        TradeOffer,
        MissingClassInfoError,
    >)
        ensures
            combine_offer_ok(res, self, map@),
    {
        let items_to_give = match collect_assets(&self.items_to_give, map) {
            Ok(v) => v,
            Err(e) => return Err(e),
        };
        let items_to_receive = match collect_assets(&self.items_to_receive, map) {
            Ok(v) => v,
            Err(e) => return Err(e),
        };
        Ok(
            TradeOffer {
                items_to_give,
                items_to_receive,
                tradeofferid: self.tradeofferid,
                tradeid: self.tradeid,
                trade_offer_state: self.trade_offer_state,
                partner: steamid_from_account_id(self.accountid_other),
                message: self.message,
                is_our_offer: self.is_our_offer,
                from_real_time_trade: self.from_real_time_trade,
                expiration_time: self.expiration_time,
                time_updated: self.time_updated,
                time_created: self.time_created,
                escrow_end_date: self.escrow_end_date,
                confirmation_method: self.confirmation_method,
            },
        )
    }

    /// Checks whether the trade offer is glitched or not by checking if no items are present.
    pub fn is_glitched(&self) -> (res: bool)
        ensures
            res == (self.items_to_receive@.len() == 0 && self.items_to_give@.len() == 0),
    {
        self.items_to_receive.len() == 0 && self.items_to_give.len() == 0
    }

    /// Whether the state of this offer can be modified. This is either active offers or offers
    /// that are in escrow.
    pub fn state_is_changeable(&self) -> (res: bool)
        ensures
            res == (self.trade_offer_state == TradeOfferState::Active || self.trade_offer_state
                == TradeOfferState::InEscrow),
    {
        self.trade_offer_state == TradeOfferState::Active || self.trade_offer_state
            == TradeOfferState::InEscrow
    }
}

/// Combines a receipt asset with its classinfo from `map`.
pub fn from_raw_receipt_asset(asset: RawReceiptAsset, map: &ClassInfoMap) -> (res: Result<
    Asset,
    MissingClassInfoError,
>)
    ensures
        ({
            let class = (asset.appid, asset.classid, asset.instanceid);
            match res {
                Ok(a) => map@.contains_key(class) && a.appid == asset.appid && a.contextid
                    == asset.contextid && a.assetid == asset.assetid && a.amount == asset.amount
                    && !a.missing && a.classinfo == map@[class],
                Err(e) => !map@.contains_key(class) && e == MissingClassInfoError {
                    appid: asset.appid,
                    classid: asset.classid,
                    instanceid: asset.instanceid,
                },
            }
        }),
{
    match map.get(&(asset.appid, asset.classid, asset.instanceid)) {
        Some(classinfo) => Ok(
            Asset {
                appid: asset.appid,
                contextid: asset.contextid,
                assetid: asset.assetid,
                amount: asset.amount,
                missing: false,
                classinfo: share(classinfo),
            },
        ),
        None => Err(
            MissingClassInfoError {
                appid: asset.appid,
                classid: asset.classid,
                instanceid: asset.instanceid,
            },
        ),
    }
}

// ---------------------------------------------------------------------------------------------
// Trades.
// ---------------------------------------------------------------------------------------------

/// An asset belonging to a [`RawTrade`].
#[derive(Debug, Clone, Copy, PartialEq, Eq)]
pub struct RawTradeAsset {
    /// The app ID.
    pub appid: AppId,
    /// The context ID.
    pub contextid: ContextId,
    /// The unique asset ID.
    pub assetid: AssetId,
    /// The amount.
    pub amount: Amount,
    /// The ID of the classinfo.
    pub classid: ClassId,
    /// The specific instance ID of the classinfo belonging to the class ID.
    pub instanceid: InstanceId,
    /// The context ID of the item received. `None` if this item has not yet finished
    /// transferring.
    pub new_contextid: Option<ContextId>,
    /// The unique asset ID of the item received. `None` if this item has not yet finished
    /// transferring.
    pub new_assetid: Option<AssetId>,
}

impl RawTradeAsset {
    /// Converts this asset into a [`RawAsset`]. The `contextid` and `assetid` are taken from
    /// `contextid` and `assetid` respectively, **not** `new_contextid` and `new_assetid`.
    pub fn to_raw_asset(&self) -> (res: RawAsset)
        ensures
            res == (RawAsset {
                appid: self.appid,
                contextid: self.contextid,
                assetid: self.assetid,
                amount: self.amount,
                missing: false,
                classid: self.classid,
                instanceid: self.instanceid,
            }),
    {
        RawAsset {
            appid: self.appid,
            contextid: self.contextid,
            assetid: self.assetid,
            amount: self.amount,
            missing: false,
            classid: self.classid,
            instanceid: self.instanceid,
        }
    }

    /// Attempts to convert this asset into a [`RawAsset`] of the newly acquired item. The
    /// `contextid` and `assetid` are taken from `new_contextid` and `new_assetid`
    /// respectively. Fails if either is not present.
    pub fn try_into_new_asset(&self) -> (res: Result<RawAsset, TryIntoNewAssetError>)
        ensures
            match (self.new_contextid, self.new_assetid) {
                (Some(c), Some(a)) => res == Ok::<RawAsset, TryIntoNewAssetError>(
                    RawAsset {
                        appid: self.appid,
                        contextid: c,
                        assetid: a,
                        amount: self.amount,
                        missing: false,
                        classid: self.classid,
                        instanceid: self.instanceid,
                    },
                ),
                _ => res == Err::<RawAsset, TryIntoNewAssetError>(
                    TryIntoNewAssetError {
                        appid: self.appid,
                        contextid: self.contextid,
                        assetid: self.assetid,
                        amount: self.amount,
                    },
                ),
            },
    {
        let err = TryIntoNewAssetError {
            appid: self.appid,
            contextid: self.contextid,
            assetid: self.assetid,
            amount: self.amount,
        };
        let contextid = match self.new_contextid {
            Some(c) => c,
            None => return Err(err),
        };
        let assetid = match self.new_assetid {
            Some(a) => a,
            None => return Err(err),
        };
        Ok(
            RawAsset {
                appid: self.appid,
                contextid,
                assetid,
                amount: self.amount,
                missing: false,
                classid: self.classid,
                instanceid: self.instanceid,
            },
        )
    }
}

impl From<RawTradeAsset> for RawAsset {
    /// Converts a [`RawTradeAsset`] into a [`RawAsset`], keeping `contextid` and `assetid`.
    fn from(raw_trade_asset: RawTradeAsset) -> (res: Self) {
        raw_trade_asset.to_raw_asset()
    }
}

impl vstd::std_specs::convert::FromSpecImpl<RawTradeAsset> for RawAsset {
    open spec fn obeys_from_spec() -> bool {
        true
    }

    open spec fn from_spec(t: RawTradeAsset) -> RawAsset {
        RawAsset {
            appid: t.appid,
            contextid: t.contextid,
            assetid: t.assetid,
            amount: t.amount,
            missing: false,
            classid: t.classid,
            instanceid: t.instanceid,
        }
    }
}

/// A trade as Steam sends it.
#[derive(Debug, Clone)]
pub struct RawTrade {
    /// The trade ID.
    pub tradeid: TradeId,
    /// The 64-bit Steam ID of our partner.
    pub steamid_other: u64,
    /// The time the trade was initiated.
    pub time_init: ServerTime,
    /// The current status of the trade.
    pub status: TradeStatus,
    /// Assets given.
    pub assets_given: Vec<RawTradeAsset>,
    /// Assets received.
    pub assets_received: Vec<RawTradeAsset>,
}

/// Trades as a GetTradeHistory response gives them, without descriptions.
#[derive(Debug, Clone)]
pub struct RawTrades {
    /// The trades.
    pub trades: Vec<RawTrade>,
    /// Whether more trades can be fetched.
    pub more: bool,
    /// The total trades of your account.
    pub total_trades: u32,
}

/// An asset of a trade with its description.
#[derive(Debug, Clone)]
pub struct TradeAsset {
    /// The app ID.
    pub appid: AppId,
    /// The context ID.
    pub contextid: ContextId,
    /// The unique asset ID.
    pub assetid: AssetId,
    /// The amount.
    pub amount: Amount,
    /// The context ID of the item received, once transferred.
    pub new_contextid: Option<ContextId>,
    /// The unique asset ID of the item received, once transferred.
    pub new_assetid: Option<AssetId>,
    /// The description of the item.
    pub classinfo: Arc<ClassInfo>,
}

/// A trade with the descriptions of its items.
#[derive(Debug, Clone)]
pub struct Trade {
    /// The trade ID.
    pub tradeid: TradeId,
    /// The 64-bit Steam ID of our partner.
    pub steamid_other: u64,
    /// The time the trade was initiated.
    pub time_init: ServerTime,
    /// The current status of the trade.
    pub status: TradeStatus,
    /// Assets given.
    pub assets_given: Vec<TradeAsset>,
    /// Assets received.
    pub assets_received: Vec<TradeAsset>,
}

/// Trades with descriptions.
#[derive(Debug, Clone)]
pub struct Trades {
    /// The trades.
    pub trades: Vec<Trade>,
    /// Whether more trades can be fetched.
    pub more: bool,
    /// The total trades of your account.
    pub total_trades: u32,
}

/// The raw asset whose classinfo a trade asset needs.
pub open spec fn trade_raw(a: RawTradeAsset) -> RawAsset {
    RawAsset {
        appid: a.appid,
        contextid: a.contextid,
        assetid: a.assetid,
        amount: a.amount,
        missing: false,
        classid: a.classid,
        instanceid: a.instanceid,
    }
}

/// `t` is the trade asset `raw` combined with the classinfo `c`.
pub open spec fn is_trade_combined(t: TradeAsset, raw: RawTradeAsset, c: Arc<ClassInfo>) -> bool {
    &&& t.appid == raw.appid
    &&& t.contextid == raw.contextid
    &&& t.assetid == raw.assetid
    &&& t.amount == raw.amount
    &&& t.new_contextid == raw.new_contextid
    &&& t.new_assetid == raw.new_assetid
    &&& t.classinfo == c
}

/// `res` is what combining the trade assets `s` with `m` gives.
pub open spec fn combine_trade_assets_ok(
    res: Result<Seq<TradeAsset>, MissingClassInfoError>,
    s: Seq<RawTradeAsset>,
    m: Map<ClassInfoClass, Arc<ClassInfo>>,
) -> bool {
    let raws = s.map_values(|a: RawTradeAsset| trade_raw(a));
    match first_missing(raws, m) {
        Some(i) => res == Err::<Seq<TradeAsset>, MissingClassInfoError>(missing_of(raws[i])),
        None => res is Ok && res->Ok_0.len() == s.len() && forall|j: int|
            0 <= j < s.len() ==> #[trigger] is_trade_combined(
                res->Ok_0[j],
                s[j],
                m[class_of(raws[j])],
            ),
    }
}

/// Combines trade assets with the classinfos of `map`, failing on the first missing one.
fn collect_trade_assets(assets: &Vec<RawTradeAsset>, map: &ClassInfoMap) -> (res: Result<
    Vec<TradeAsset>,
    MissingClassInfoError,
>)
    ensures
        combine_trade_assets_ok(
            match res {
                Ok(v) => Ok(v@),
                Err(e) => Err(e),
            },
            assets@,
            map@,
        ),
{
    let ghost raws = assets@.map_values(|a: RawTradeAsset| trade_raw(a));
    let mut out: Vec<TradeAsset> = Vec::new();
    let mut i: usize = 0;
    while i < assets.len()
        invariant
            i <= assets@.len(),
            raws == assets@.map_values(|a: RawTradeAsset| trade_raw(a)),
            out@.len() == i,
            forall|j: int| 0 <= j < i ==> map@.contains_key(class_of(raws[j])),
            forall|j: int|
                0 <= j < i ==> #[trigger] is_trade_combined(
                    out@[j],
                    assets@[j],
                    map@[class_of(raws[j])],
                ),
        decreases assets@.len() - i,
    {
        let a = assets[i];
        match map.get(&(a.appid, a.classid, a.instanceid)) {
            Some(classinfo) => {
                out.push(
                    TradeAsset {
                        appid: a.appid,
                        contextid: a.contextid,
                        assetid: a.assetid,
                        amount: a.amount,
                        new_contextid: a.new_contextid,
                        new_assetid: a.new_assetid,
                        classinfo: share(classinfo),
                    },
                );
            },
            None => {
                proof {
                    lemma_first_missing(raws, map@);
                    assert(class_of(raws[i as int]) == (a.appid, a.classid, a.instanceid));
                    match first_missing(raws, map@) {
                        Some(k) => {
                            if k < i {
                                assert(map@.contains_key(class_of(raws[k])));
                            }
                            if k > i {
                                assert(map@.contains_key(class_of(raws[i as int])));
                            }
                        },
                        None => {
                            assert(map@.contains_key(class_of(raws[i as int])));
                        },
                    }
                }
                return Err(
                    MissingClassInfoError {
                        appid: a.appid,
                        classid: a.classid,
                        instanceid: a.instanceid,
                    },
                );
            },
        }
        i = i + 1;
    }
    proof {
        lemma_first_missing(raws, map@);
        if let Some(k) = first_missing(raws, map@) {
            assert(map@.contains_key(class_of(raws[k])));
        }
    }
    Ok(out)
}

/// `res` is what combining the trade `raw` with `m` gives: assets given are described first.
pub open spec fn combine_trade_ok(
    res: Result<Trade, MissingClassInfoError>,
    raw: RawTrade,
    m: Map<ClassInfoClass, Arc<ClassInfo>>,
) -> bool {
    let given = raw.assets_given@.map_values(|a: RawTradeAsset| trade_raw(a));
    let received = raw.assets_received@.map_values(|a: RawTradeAsset| trade_raw(a));
    match first_missing(given, m) {
        Some(i) => res == Err::<Trade, MissingClassInfoError>(missing_of(given[i])),
        None => match first_missing(received, m) {
            Some(i) => res == Err::<Trade, MissingClassInfoError>(missing_of(received[i])),
            None => res is Ok && res->Ok_0.tradeid == raw.tradeid && res->Ok_0.steamid_other
                == raw.steamid_other && res->Ok_0.time_init == raw.time_init && res->Ok_0.status
                == raw.status && combine_trade_assets_ok(
                Ok(res->Ok_0.assets_given@),
                raw.assets_given@,
                m,
            ) && combine_trade_assets_ok(
                Ok(res->Ok_0.assets_received@),
                raw.assets_received@,
                m,
            ),
        },
    }
}

/// `t` carries what the raw trade asset `r` says of its item (app, context, asset ID, amount,
/// and where it went), with the classinfo of its class in `m`.
pub open spec fn trade_asset_keeps(
    t: TradeAsset,
    r: RawTradeAsset,
    m: Map<ClassInfoClass, Arc<ClassInfo>>,
) -> bool {
    &&& t.appid == r.appid
    &&& t.contextid == r.contextid
    &&& t.assetid == r.assetid
    &&& t.amount == r.amount
    &&& t.new_contextid == r.new_contextid
    &&& t.new_assetid == r.new_assetid
    &&& m.contains_key((r.appid, r.classid, r.instanceid))
    &&& t.classinfo == m[(r.appid, r.classid, r.instanceid)]
}

proof fn lemma_trade_assets_keep(
    v: Seq<TradeAsset>,
    s: Seq<RawTradeAsset>,
    m: Map<ClassInfoClass, Arc<ClassInfo>>,
)
    requires
        combine_trade_assets_ok(Ok(v), s, m),
    ensures
        v.len() == s.len(),
        forall|j: int| 0 <= j < s.len() ==> trade_asset_keeps(#[trigger] v[j], s[j], m),
{
    let raws = s.map_values(|a: RawTradeAsset| trade_raw(a));
    lemma_first_missing(raws, m);
    assert forall|j: int| 0 <= j < s.len() implies trade_asset_keeps(#[trigger] v[j], s[j], m) by {
        assert(raws[j] == trade_raw(s[j]));
        assert(is_trade_combined(v[j], s[j], m[class_of(raws[j])]));
        assert(m.contains_key(class_of(raws[j])));
    }
}

/// A trade combined with its descriptions keeps, one for one and in order, each asset given and
/// each asset received, with its amount, asset IDs and classinfo, and the trade's ID, partner,
/// time and status.
pub proof fn law_trade_keeps_assets(res: Trade, raw: RawTrade, m: Map<ClassInfoClass, Arc<ClassInfo>>)
    requires
        combine_trade_ok(Ok(res), raw, m),
    ensures
        res.assets_given@.len() == raw.assets_given@.len(),
        forall|j: int|
            0 <= j < raw.assets_given@.len() ==> trade_asset_keeps(
                #[trigger] res.assets_given@[j],
                raw.assets_given@[j],
                m,
            ),
        res.assets_received@.len() == raw.assets_received@.len(),
        forall|j: int|
            0 <= j < raw.assets_received@.len() ==> trade_asset_keeps(
                #[trigger] res.assets_received@[j],
                raw.assets_received@[j],
                m,
            ),
        res.tradeid == raw.tradeid,
        res.steamid_other == raw.steamid_other,
        res.time_init == raw.time_init,
        res.status == raw.status,
{
    lemma_trade_assets_keep(res.assets_given@, raw.assets_given@, m);
    lemma_trade_assets_keep(res.assets_received@, raw.assets_received@, m);
}

impl RawTrade {
    /// Attempts to combine this trade into a [`Trade`] using the given map.
    pub fn try_combine_classinfos(self, map: &ClassInfoMap) -> (res: Result<
        Trade,
        MissingClassInfoError,
    >)
        ensures
            combine_trade_ok(res, self, map@),
    {
        let assets_given = match collect_trade_assets(&self.assets_given, map) {
            Ok(v) => v,
            Err(e) => return Err(e),
        };
        let assets_received = match collect_trade_assets(&self.assets_received, map) {
            Ok(v) => v,
            Err(e) => return Err(e),
        };
        Ok(
            Trade {
                assets_given,
                assets_received,
                tradeid: self.tradeid,
                status: self.status,
                steamid_other: self.steamid_other,
                time_init: self.time_init,
            },
        )
    }
}

} // verus!
