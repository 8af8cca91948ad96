//! A daily mood ledger: one binary mood record per calendar day, with
//! idempotent upsert, default back-filling of a missed day, and the small
//! decisions that the web surface and the daily job take around it.

pub mod day;
pub mod job;
pub mod laws;
pub mod ledger;
pub mod mood;
pub mod web;
