//! 64-bit, time-sortable identifiers ("snowflakes"): a 42-bit epoch-relative
//! millisecond timestamp, a 12-bit instance id and a 10-bit per-millisecond
//! sequence, high to low.
//!
//! `codec` packs and unpacks the three fields; `generator` holds the
//! clock/sequence state machine that hands out strictly increasing identifiers.
pub mod codec;
pub mod generator;
