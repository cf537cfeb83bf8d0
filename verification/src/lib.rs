//! Keeping discounts running: which promotions are about to expire, what to do
//! about them, and the requests that do it.
//!
//! The library decides; talking to the service, to the terminal and to the file
//! system is left to the program around it.
pub mod account;
pub mod action;
pub mod api;
pub mod config;
pub mod execution;
pub mod expiry;
pub mod fetch;
pub mod json;
pub mod listing;
pub mod model;
pub mod order;
pub mod plan;
pub mod report;
pub mod request;
pub mod tally;
pub mod text;
pub mod time;

pub use account::{body_has_error_1001, refresh_access_token, update_env_access_token};
pub use api::{ApiError, MarketingApi};
pub use config::{Config, Environment};
pub use expiry::filter_expiring;
pub use fetch::fetch_all_promotions;
pub use model::{
    ItemMarkdownStatus, ListingDetail, ListingSet, PromotionList, PromotionSummary, TokenResponse,
};
pub use request::short_desc_tag;
pub use time::{parse_rfc3339, plus_days};
