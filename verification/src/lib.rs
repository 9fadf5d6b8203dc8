//! Parsing and rendering for the tag/attribute grammar of an HLS-style
//! playlist dialect: typed attribute values, the attribute-list parser,
//! per-tag parse/render/required-version contracts, and the protocol
//! version order.

pub mod error;
pub mod decimal;
pub mod text;
pub mod attribute;
pub mod types;
pub mod tags;
