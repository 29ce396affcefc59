//! Verified building blocks for small cooperative pipelines.
//!
//! - `race`: which of two computations wins, and when the other is dropped.
//! - `channel`: a first-in first-out channel of text messages.
//! - `trace`, `throttle`, `timeout`: streams as recorded events, and the
//!   adapters that merge them, cut them short, thin them out and put a
//!   deadline on each of their items.
//! - `producers`, `monitor`, `filter`: the sources, the pipeline and the
//!   selection of the demonstrations.
//! - `scrape`, `text`: the arguments of the page-title scraper and the lines
//!   it prints.

pub mod channel;
pub mod filter;
pub mod monitor;
pub mod producers;
pub mod race;
pub mod scrape;
pub mod text;
pub mod throttle;
pub mod timeout;
pub mod trace;
