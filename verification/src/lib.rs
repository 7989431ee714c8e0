//! Scrape dispatch and caching engine: backend classification over artwork
//! URLs, per-backend extraction logic, a single-flight result cache model,
//! and the deterministic URL camouflage rewrite.
pub mod buzzly;
pub mod cache;
pub mod camo;
pub mod derpibooru;
pub mod deviantart;
pub mod config;
pub mod digits;
pub mod htmlsel;
pub mod dispatch;
pub mod jsontree;
pub mod nitter;
pub mod philomena;
pub mod raw;
pub mod result;
pub mod tumblr;
pub mod twitter;
pub mod urlkit;
pub mod web;
pub mod wire;
pub mod text;
