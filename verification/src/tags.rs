//! The tag kinds: each with its fixed wire prefix, a parse operation,
//! a render operation, and the protocol version it requires.

pub mod m3u;
pub mod version;
pub mod map;
