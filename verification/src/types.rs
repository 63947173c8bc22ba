//! Type aliases used throughout the crate.
use vstd::prelude::*;

verus! {

/// An app ID e.g. `440` for Team Fortress 2.
pub type AppId = u32;
/// A context ID.
pub type ContextId = u64;
/// An asset ID, unique to the item's app ID and context ID.
pub type AssetId = u64;
/// An amount of an item.
pub type Amount = u32;
/// A class ID.
pub type ClassId = u64;
/// An instance ID; `None` stands for the instance `0`.
pub type InstanceId = Option<u64>;
/// A trade offer ID.
pub type TradeOfferId = u64;
/// A trade ID.
pub type TradeId = u64;
/// A point in time, in milliseconds since the UNIX epoch.
pub type ServerTime = i64;
/// A length of time in milliseconds.
pub type Millis = i64;
/// The key of a classinfo: app ID, class ID and instance ID.
pub type ClassInfoClass = (AppId, ClassId, InstanceId);
/// The key of a classinfo within an app: class ID and instance ID.
pub type ClassInfoAppClass = (ClassId, InstanceId);

} // verus!
