//! Verified core of a currency exchange rate tracker.
//!
//! One cycle of the tracker fetches a quote (a JSON array of records with a
//! numeric `rate` field) from an exchange rate service, and forwards the rate
//! as a telemetry event to an analytics ingestion endpoint. This crate holds
//! the verified logic of that cycle: decoding the quote response, building the
//! event envelope and collection URL, classifying HTTP responses, and the
//! cycle's control decisions. The surrounding process (HTTP transport, the
//! hourly sleep loop, logging) stays outside the crate and hands plain values
//! in and out.

pub mod cycle;
pub mod fetch;
pub mod forward;
pub mod json;
