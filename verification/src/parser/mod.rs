//! Decoders for the formats that plugins emit.

pub mod proto;
