//! Account data for foreign-account reports: the entities a user declares
//! (providers, accounts, exchange-rate facts), the rules that tie them together,
//! and the lookup of a year's exchange rate with its provenance.
//!
//! The functions here are verified against the contracts in their headers,
//! but for two that call outside code and whose contracts are taken on trust:
//! `text::to_lowercase`, which calls the standard library's case folding, and
//! `data::date::naive_from_ymd`, which calls chrono to make a date. The
//! contracts speak about the views of the data types: strings as sequences of
//! characters, vectors as sequences, dates as triples of integers.

pub mod text;
pub mod facts;
pub mod report_context;
pub mod data;
