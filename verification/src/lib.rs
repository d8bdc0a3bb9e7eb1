//! Packet framing for a virtual network device and receive-offload
//! coalescing of UDP flows, with machine-checked contracts.

pub mod bytes_util;
pub mod tun;
pub mod device;
pub mod buffer;
pub mod headers;
pub mod offload;
pub mod offload_proofs;
