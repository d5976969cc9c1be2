//! Group "move together" poll engine for a chat platform with rooms,
//! presence and emoji reactions.
//!
//! A member asks everyone sharing their room to relocate together. The
//! engine renders the poll into the posted message's text (the message body
//! is the only persisted state), races a timeout against a finalizing
//! reaction from the requester, and computes the best-effort bulk
//! relocation with per-member failure isolation. All platform I/O stays
//! outside this crate; the functions here take and return plain values.

pub mod codec;
pub mod config;
pub mod digits;
pub mod dispatch;
pub mod handler;
pub mod lifecycle;
pub mod migrate;
pub mod resolver;
