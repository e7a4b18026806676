//! Railway billing exporter: the collection, pricing, icon-cache and fanout
//! engine, with its contracts.
//!
//! - `pricing`: prices per measurement kind, overrides, and costs.
//! - `config`: plan, gzip and icon-cache settings; checks and defaults of a
//!   parsed configuration file.
//! - `client`: request texts and response handling of the upstream API.
//! - `types`: the published snapshot and the push messages.
//! - `collector`: one collection cycle, from fetched data to a snapshot.
//! - `state`: scrape bookkeeping, publishing, live subscribers and the life
//!   of one push subscriber.
//! - `icons`: the bounded least-recently-used icon cache.
//! - `http`: routing, static paths, content types and response bodies.
//!
//! Money is held in fixed point throughout: quantities in thousandths of a
//! unit, prices in nano-dollars per unit, costs in pico-dollars.

pub mod text;
pub mod pricing;
pub mod config;
pub mod client;
pub mod types;
pub mod collector;
pub mod state;
pub mod icons;
pub mod http;
