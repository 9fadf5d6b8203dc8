//! The typed value domain: each scalar kind a tag field is built from,
//! with its parse/render pair and validity rules, plus the protocol
//! version order and the decryption-key descriptor.

pub mod protocol_version;
pub mod byte_range;
pub mod hdcp_level;
pub mod decryption_key;
