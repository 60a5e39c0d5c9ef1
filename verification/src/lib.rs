//! Mosaic: a deterministic tracker for Indian mainboard IPOs.
//!
//! The verified core: domain types, tolerant parsers for the source pages,
//! Indian-number formatting and the sync scheduling decisions.

pub mod text;
pub mod types;
pub mod date;
pub mod decimal;
pub mod parse_util;
pub mod format;
pub mod html;
pub mod error;
pub mod chittorgarh;
pub mod ipowatch;
pub mod json;
pub mod nse;
pub mod view;
pub mod timing;
pub mod rate_limit;
pub mod sync;
pub mod store;
pub mod config;
pub mod sorting;
