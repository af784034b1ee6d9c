//! A content-addressed store for compiled GPU kernels, together with the
//! wire encoding of the progress side-channel that accompanies compilation.
//!
//! The crate computes; it performs no I/O. Each cache operation is split into
//! a request (where an entry lives, what has to be written) and the
//! interpretation of what the filesystem answered.
//!
//! - [`repository`] maps five identifying fields to the place of an entry;
//!   [`store`] says what that means on a filesystem that keeps what was
//!   written.
//! - [`compute`] keys compiled compute kernels, [`raytracing`] keys
//!   ray-tracing programs; the latter folds the canonical text of an
//!   attribute map into the key ([`attributes`], [`listing`], [`names`],
//!   [`canonical_text`], [`json`]).
//! - [`digest`] and [`hex`] hold the hash functions and their text form.
//! - [`progress`], [`varint`] and [`handshake`] hold the wire form of the
//!   progress commands and the handshake that opens their channel.
//!
//! # What is believed
//!
//! Every function here is proved against its contract, except for the calls
//! into other crates. Each of those stands in a small function of its own
//! whose contract is believed:
//!
//! - `digest::sha256`, `digest::sha512` and `digest::blake3` call the `sha2`
//!   and `blake3` crates. Their results are known by name only.
//! - `hex::hex_encode`, `hex::hexlower_encode` and `hex::blake3_to_hex` call
//!   `hex::encode`, `data_encoding::HEXLOWER` and `blake3::Hash::to_hex`; all
//!   three are believed to write lowercase hexadecimal.
//! - `json::json_quote` calls `serde_json::to_string` on a `str`.
//! - `canonical_text::utf8_text` calls `core::str::from_utf8`.
//! - `attributes::attribute_entries` walks a `rustc_hash::FxHashMap`.
//! - `progress::random_id` calls `rand::random`; nothing is believed of it.

pub mod attributes;
pub mod canonical_text;
pub mod compute;
pub mod digest;
pub mod handshake;
pub mod hex;
pub mod json;
pub mod listing;
pub mod names;
pub mod progress;
pub mod raytracing;
pub mod repository;
pub mod store;
pub mod varint;
