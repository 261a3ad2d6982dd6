//! Reading syndication feeds: items are read into articles with a stable
//! identifier, the icon of a feed is found and inlined, and what a refresh
//! brings is reconciled with what is stored, so that reading a feed again
//! makes no duplicates. The decisions of a refresh are a state machine
//! (`refresh`), which a program drives against its network and its database;
//! `driver` drives it against a store in memory, and `guarantees` says what
//! holds of that.

pub mod accounts;
pub mod address;
pub mod clock;
pub mod content;
pub mod credentials;
pub mod driver;
pub mod error;
pub mod feed;
pub mod guarantees;
pub mod hashing;
pub mod icon;
pub mod refresh;
pub mod store;
pub mod text;
