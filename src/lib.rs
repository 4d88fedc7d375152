//! A status-line data source: producers sampled at their own cadence, cached between
//! samples, and joined each tick into one line of JSON blocks.
pub mod battery;
pub mod modules;
pub mod network;
pub mod output;
pub mod producers;
pub mod text;
