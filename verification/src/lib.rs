//! Price crawler for CS:GO item markets: item normalisation, market response
//! interpretation and the request flow, with their contracts.

pub mod crawl;
pub mod crawler;
pub mod db;
pub mod http;
pub mod item;
pub mod json;
pub mod market;
pub mod text;
pub mod utils;
pub mod watch;
