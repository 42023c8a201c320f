//! A multi-party simulation harness for group key agreement: parties, their
//! per-group member state, and a registry that fans protocol messages out to
//! every tracked member.

pub mod crypto;
pub mod engine;
pub mod party;
pub mod member;
pub mod group;
pub mod driver;
