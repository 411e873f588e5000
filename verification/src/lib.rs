//! Data-to-geometry pipeline of a daily OHLCV stock chart: loading a
//! chronological series, windowing it, mapping pointer positions to records,
//! and describing the price and volume panels as drawing primitives.
//!
//! Prices are fixed-point integers and pixel positions are whole device
//! units, so every function here is exact.

pub mod config;
pub mod controller;
pub mod custom_date_format;
pub mod decimal;
pub mod error;
pub mod labels;
pub mod loader;
pub mod machine;
pub mod mapper;
pub mod render;
pub mod series;
pub mod shortcuts;
pub mod status;
pub mod ticker;
pub mod window;
