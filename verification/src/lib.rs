//! Request-entry layer of a user service: routing, role/ownership
//! authorization with transparent token rotation, payload decoding, and a
//! total error presenter.
//!
//! Everything here works on plain values. The two waits a request involves
//! — reading the body and the round trip to the identity collaborator —
//! happen outside; their outcomes are handed in, and every decision taken
//! on them is made (and specified) here.

pub mod auth;
pub mod cookie;
pub mod entity;
pub mod error;
pub mod matcher;
pub mod msg;
pub mod payload;
