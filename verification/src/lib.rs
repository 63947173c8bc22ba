//! Makes Steam trade offers easy: the verified core of a trade offer manager.
#![allow(unused_imports)]

pub mod text;
pub mod types;
pub mod enums;
pub mod error;
pub mod steamid;
pub mod response;
pub mod cookies;
pub mod response_check;
pub mod time;
pub mod request;
pub mod polling;
pub mod api;
pub mod receipt;
pub mod classinfo_cache;
pub mod item_collection;
pub mod manager;
pub mod functions;
pub mod user_details;
