//! A point-to-multipoint layer-3 tunnel: framing, peer handshake, routing
//! and the decisions of the device that drives them.
//!
//! Everything here is free of I/O. The device hands out descriptions of the
//! reads and writes that its owner has to perform and is told what came back.

pub mod allowed_ip;
pub mod conf;
pub mod device;
pub mod ipv4;
pub mod packet;
pub mod peer;
pub mod poll;
pub mod poll_kqueue;
pub mod text;
