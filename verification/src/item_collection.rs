//! A collection of items, and the Team Fortress 2 currencies that it holds.
use vstd::prelude::*;
use crate::response::{share, Asset, ClassInfo};
use crate::text::chars_of;
use crate::types::{AppId, AssetId};

verus! {

/// The app ID of Team Fortress 2.
pub const TF2_APPID: AppId = 440;

/// The value of a refined metal in weapons.
///
/// Reads `tf2_price::ONE_REF`, which the crate's source defines as 18.
#[verifier::external_body]
fn one_ref() -> (res: i64)
    ensures
        res == 18,
{
    tf2_price::ONE_REF
}

/// The value of a reclaimed metal in weapons.
///
/// Reads `tf2_price::ONE_REC`, which the crate's source defines as 6.
#[verifier::external_body]
fn one_rec() -> (res: i64)
    ensures
        res == 6,
{
    tf2_price::ONE_REC
}

/// The value of a scrap metal in weapons.
///
/// Reads `tf2_price::ONE_SCRAP`, which the crate's source defines as 2.
#[verifier::external_body]
fn one_scrap() -> (res: i64)
    ensures
        res == 2,
{
    tf2_price::ONE_SCRAP
}

/// An amount of currencies: keys, and metal counted in weapons (a refined metal is 18).
#[derive(Debug, Clone, Copy, PartialEq, Eq)]
pub struct Currencies {
    /// Amount of keys.
    pub keys: i64,
    /// Amount of metal, in weapons.
    pub metal: i64,
}

/// The kind of currency an item of Team Fortress 2 is, by its market hash name.
pub open spec fn currency_of(name: Seq<char>) -> (int, int) {
    if name == "Mann Co. Supply Crate Key"@ {
        (1, 0)
    } else if name == "Refined Metal"@ {
        (0, 18)
    } else if name == "Reclaimed Metal"@ {
        (0, 6)
    } else if name == "Scrap Metal"@ {
        (0, 2)
    } else {
        (0, 0)
    }
}

/// The keys and metal that the items of `s` add up to: only items of Team Fortress 2 count.
pub open spec fn count_spec(s: Seq<Asset>) -> (int, int)
    decreases s.len(),
{
    if s.len() == 0 {
        (0, 0)
    } else {
        let prev = count_spec(s.drop_last());
        let item = s.last();
        if item.appid == TF2_APPID {
            let c = currency_of(item.classinfo.market_hash_name@);
            (prev.0 + c.0, prev.1 + c.1)
        } else {
            prev
        }
    }
}

proof fn lemma_count_bounds(s: Seq<Asset>)
    ensures
        0 <= count_spec(s).0 <= s.len(),
        0 <= count_spec(s).1 <= 18 * s.len(),
    decreases s.len(),
{
    if s.len() > 0 {
        lemma_count_bounds(s.drop_last());
    }
}

proof fn lemma_count_prefix(s: Seq<Asset>, i: int)
    requires
        0 <= i <= s.len(),
    ensures
        count_spec(s.take(i)).0 <= count_spec(s).0,
        count_spec(s.take(i)).1 <= count_spec(s).1,
{
    law_count_currencies_additive(s.take(i), s.skip(i));
    assert(s.take(i) + s.skip(i) =~= s);
    lemma_count_bounds(s.skip(i));
}

/// Whether two character sequences are equal.
fn chars_eq(a: &Vec<char>, b: &str) -> (res: bool)
    ensures
        res == (a@ == b@),
{
    let bc = chars_of(b);
    if a.len() != bc.len() {
        return false;
    }
    let mut i: usize = 0;
    while i < a.len()
        invariant
            a@.len() == bc@.len(),
            bc@ == b@,
            i <= a@.len(),
            forall|j: int| 0 <= j < i ==> a@[j] == bc@[j],
        decreases a@.len() - i,
    {
        if a[i] != bc[i] {
            assert(a@[i as int] != b@[i as int]);
            return false;
        }
        i = i + 1;
    }
    assert(a@ =~= b@);
    true
}

/// A collection of items.
#[derive(Debug, Clone)]
pub struct ItemCollection(pub Vec<Asset>);

impl View for ItemCollection {
    type V = Seq<Asset>;

    open spec fn view(&self) -> Seq<Asset> {
        self.0@
    }
}

impl ItemCollection {
    /// An empty collection.
    pub fn new() -> (res: Self)
        ensures
            res@ == Seq::<Asset>::empty(),
    {
        ItemCollection(Vec::new())
    }

    /// Adds an item at the end.
    pub fn push(&mut self, asset: Asset)
        ensures
            final(self)@ == old(self)@.push(asset),
    {
        self.0.push(asset);
    }

    /// The items, in order.
    pub fn into_vec(self) -> (res: Vec<Asset>)
        ensures
            res@ == self@,
    {
        self.0
    }

    /// The number of items.
    pub fn len(&self) -> (res: usize)
        ensures
            res == self@.len(),
    {
        self.0.len()
    }

    /// The items of the app `appid`, in order.
    pub fn filter_app(&self, appid: AppId) -> (res: ItemCollection)
        ensures
            res@ == self@.filter(|a: Asset| a.appid == appid),
    {
        let mut out: Vec<Asset> = Vec::new();
        let mut i: usize = 0;
        while i < self.0.len()
            invariant
                i <= self@.len(),
                out@ == self@.take(i as int).filter(|a: Asset| a.appid == appid),
            decreases self@.len() - i,
        {
            let a = &self.0[i];
            proof {
                assert(self@.take(i + 1).drop_last() =~= self@.take(i as int));
                reveal(Seq::filter);
            }
            if a.appid == appid {
                out.push(copy_asset(a));
            }
            i = i + 1;
        }
        assert(self@.take(self@.len() as int) =~= self@);
        ItemCollection(out)
    }

    /// Removes the items whose app ID and asset ID are in `set`, keeping the others in order.
    pub fn remove_set(&mut self, set: &Vec<(AppId, AssetId)>)
        ensures
            final(self)@ == old(self)@.filter(|a: Asset| !set@.contains((a.appid, a.assetid))),
    {
        let ghost items = self@;
        let mut rest: Vec<Asset> = Vec::new();
        std::mem::swap(&mut rest, &mut self.0);
        let mut kept: Vec<Asset> = Vec::new();
        let ghost mut done: Seq<Asset> = Seq::empty();
        while rest.len() > 0
            invariant
                items == done + rest@,
                kept@ == done.filter(|a: Asset| !set@.contains((a.appid, a.assetid))),
            decreases rest@.len(),
        {
            let a = rest.remove(0);
            let ghost item = a;
            let found = contains_pair(set, a.appid, a.assetid);
            proof {
                assert(done.push(item).drop_last() =~= done);
                assert(items == done.push(item) + rest@);
                reveal(Seq::filter);
            }
            if !found {
                kept.push(a);
            }
            proof {
                done = done.push(item);
            }
        }
        assert(done =~= items);
        self.0 = kept;
    }

    /// Moves the items of `items` to the end of this collection, leaving `items` empty.
    pub fn append(&mut self, items: &mut ItemCollection)
        ensures
            final(self)@ == old(self)@ + old(items)@,
            final(items)@ == Seq::<Asset>::empty(),
    {
        self.0.append(&mut items.0);
    }

    /// Replaces the items with those of `items`.
    pub fn update(&mut self, items: ItemCollection)
        ensures
            final(self)@ == items@,
    {
        self.0 = items.0;
    }

    /// The keys and metal the items of Team Fortress 2 in this collection add up to.
    pub fn count_currencies(&self) -> (res: Currencies)
        requires
            count_spec(self@).0 <= i64::MAX,
            count_spec(self@).1 <= i64::MAX,
        ensures
            res.keys == count_spec(self@).0,
            res.metal == count_spec(self@).1,
    {
        let mut keys: i64 = 0;
        let mut metal: i64 = 0;
        let mut i: usize = 0;
        while i < self.0.len()
            invariant
                i <= self@.len(),
                count_spec(self@).0 <= i64::MAX,
                count_spec(self@).1 <= i64::MAX,
                keys == count_spec(self@.take(i as int)).0,
                metal == count_spec(self@.take(i as int)).1,
            decreases self@.len() - i,
        {
            let item = &self.0[i];
            proof {
                assert(self@.take(i + 1).drop_last() =~= self@.take(i as int));
                lemma_count_prefix(self@, i + 1);
            }
            if item.appid == TF2_APPID {
                let name = chars_of(item.classinfo.market_hash_name.as_str());
                if chars_eq(&name, "Mann Co. Supply Crate Key") {
                    keys = keys + 1;
                } else if chars_eq(&name, "Refined Metal") {
                    metal = metal + one_ref();
                } else if chars_eq(&name, "Reclaimed Metal") {
                    metal = metal + one_rec();
                } else if chars_eq(&name, "Scrap Metal") {
                    metal = metal + one_scrap();
                }
            }
            i = i + 1;
        }
        assert(self@.take(self@.len() as int) =~= self@);
        Currencies { keys, metal }
    }
}

impl From<Vec<Asset>> for ItemCollection {
    fn from(assets: Vec<Asset>) -> (res: ItemCollection) {
        ItemCollection(assets)
    }
}

impl vstd::std_specs::convert::FromSpecImpl<Vec<Asset>> for ItemCollection {
    open spec fn obeys_from_spec() -> bool {
        true
    }

    open spec fn from_spec(assets: Vec<Asset>) -> ItemCollection {
        ItemCollection(assets)
    }
}

/// Copies an item, sharing its classinfo.
fn copy_asset(a: &Asset) -> (res: Asset)
    ensures
        res == *a,
{
    Asset {
        appid: a.appid,
        contextid: a.contextid,
        assetid: a.assetid,
        amount: a.amount,
        missing: a.missing,
        classinfo: share(&a.classinfo),
    }
}

/// Whether `set` holds the pair `(appid, assetid)`.
fn contains_pair(set: &Vec<(AppId, AssetId)>, appid: AppId, assetid: AssetId) -> (res: bool)
    ensures
        res == set@.contains((appid, assetid)),
{
    let mut i: usize = 0;
    while i < set.len()
        invariant
            i <= set@.len(),
            forall|j: int| 0 <= j < i ==> set@[j] != (appid, assetid),
        decreases set@.len() - i,
    {
        if set[i].0 == appid && set[i].1 == assetid {
            assert(set@[i as int] == (appid, assetid));
            return true;
        }
        i = i + 1;
    }
    false
}


/// The currencies of two collections put together are the sums of their currencies.
pub proof fn law_count_currencies_additive(a: Seq<Asset>, b: Seq<Asset>)
    ensures
        count_spec(a + b).0 == count_spec(a).0 + count_spec(b).0,
        count_spec(a + b).1 == count_spec(a).1 + count_spec(b).1,
    decreases b.len(),
{
    if b.len() == 0 {
        assert(a + b =~= a);
    } else {
        law_count_currencies_additive(a, b.drop_last());
        assert((a + b).drop_last() =~= a + b.drop_last());
        assert((a + b).last() == b.last());
    }
}

/// Keeping the items of one app twice keeps the same items as once.
pub proof fn law_filter_app_idempotent(s: Seq<Asset>, appid: AppId)
    ensures
        s.filter(|a: Asset| a.appid == appid).filter(|a: Asset| a.appid == appid) == s.filter(
            |a: Asset| a.appid == appid,
        ),
    decreases s.len(),
{
    reveal(Seq::filter);
    if s.len() > 0 {
        law_filter_app_idempotent(s.drop_last(), appid);
        let f = s.filter(|a: Asset| a.appid == appid);
        if s.last().appid == appid {
            assert(f.drop_last() =~= s.drop_last().filter(|a: Asset| a.appid == appid));
        }
    } else {
        assert(s.filter(|a: Asset| a.appid == appid) =~= s);
    }
}

} // verus!
