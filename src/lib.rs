//! Membership authority: direct enrollment, one-time enrollment tokens and
//! the relay that lets older clients reach the split handlers.

pub mod token_store;
pub mod attributes;
pub mod api;
pub mod authenticators;
pub mod legacy;
pub mod attach_key;
pub mod client;
