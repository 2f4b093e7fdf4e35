//! A verified crawl-pipeline engine for ingesting trading-card catalog data.
//!
//! The library models the durable state of a crawl (parent collections, child
//! work items, leased links, progress cursors and detail records) as plain
//! data with mathematical views, and verifies the protocol that the crawlers
//! follow: idempotent enqueueing, lease-based exclusive claiming, resumable
//! pagination and per-collection completion tracking.  Page fetching and the
//! relational store live outside the library and hand it plain values.

pub mod dates;
pub mod domain;
pub mod discovery;
pub mod drain;
pub mod driver;
pub mod export_csv;
pub mod limitless;
pub mod one_piece;
pub mod one_piece_csv;
pub mod pokemon_csv;
pub mod ptcg;
pub mod queries;
pub mod strategy;
pub mod tcg_collector;
pub mod wiki;
pub mod ws;
pub mod ws_csv;
pub mod yugioh;
pub mod yugioh_csv;
pub mod error;
pub mod lease;
pub mod store;
pub mod sweep;
pub mod text;

use vstd::prelude::*;

verus! {

/// The success/failure tally a sweep reports when it finishes.
#[derive(Debug, Clone, Copy, PartialEq, Eq, Structural)]
pub struct Tally {
    pub succeeded: usize,
    pub failed: usize,
}

} // verus!
