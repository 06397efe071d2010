//! Keeps a local copy of the contracting opportunities that SAM.gov
//! publishes.
//!
//! The crate holds what such a sync decides: how a search is asked for and
//! what a reply means ([`api`]), which pages of a result are fetched
//! ([`pager`]), which date windows a run fetches and in what order
//! ([`sync`]), and how a notice is laid out in the tables of the store
//! ([`db`], [`schema`]). It sends no request and opens no file: whoever does
//! is handed what is to be done and hands back what came of it.

pub mod api;
pub mod dates;
pub mod db;
pub mod display;
pub mod pager;
pub mod query;
pub mod schema;
pub mod sync;
pub mod text;
