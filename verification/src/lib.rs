//! Client-side logic for harvesting rural settlement records from a
//! place-name registry: request parameters, result filtering, bounded
//! retry with backoff, a failure ledger and the harvest driver.
//!
//! The library performs no I/O. Network calls, sleeping and file access are
//! left to the caller, which carries out the commands that the state
//! machines here hand back and reports what happened.
//!
//! - `search` and `division` hold the parameters of the registry's queries,
//!   the form in which they are sent, and the shapes of the answers.
//! - `settlement` picks the rural settlements from the results of a search.
//! - `retry` bounds the attempts at one remote call and spaces them out;
//!   `pacing` draws the pauses between calls.
//! - `ledger` keeps the detail requests that failed.
//! - `harvest` drives the harvest of a province and `probe` that of a single
//!   county; `trace` states what holds of every run of a harvest.

pub mod text;
pub mod division;
pub mod search;
pub mod settlement;
pub mod pacing;
pub mod retry;
pub mod ledger;
pub mod harvest;
pub mod trace;
pub mod probe;
