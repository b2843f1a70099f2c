//! An options-arbitrage scanner for index options.
//!
//! The library indexes the contracts that a broker lists, takes a snapshot of
//! their quotes, looks for calendar, butterfly and box spreads that are
//! mispriced, ranks what it finds, and builds the signed multi-leg orders for
//! the best. It also keeps the state of the order lifecycle: submit, confirm,
//! track, cancel.
//!
//! All money is whole cents and all arithmetic is integer arithmetic. The
//! library does no input or output; it is handed what was read and says what
//! to send.

pub mod chain;
pub mod contender;
pub mod cycle;
pub mod dates;
pub mod index;
pub mod ladder;
pub mod lifecycle;
pub mod lifecycle_laws;
pub mod market_data;
pub mod market_hours;
pub mod money;
pub mod orders;
pub mod quotes;
pub mod rank;
pub mod render;
pub mod scan;
pub mod scan_laws;
pub mod secdef;
pub mod select;
pub mod settings;
pub mod sizing;
pub mod text;
