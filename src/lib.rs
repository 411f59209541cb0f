//! Collector library for sFlow version 5 telemetry: a bounded big-endian
//! byte reader, a datagram decoder, a decoder for the link and network
//! headers carried in raw packet records, the counter tables that parsed
//! samples are folded into, and the lifting of UDP payloads out of
//! captured frames.

pub mod reader;
pub mod sflow;
pub mod packet;
pub mod metrics;
pub mod hex;
pub mod capture;
