//! NAT-PMP port forwarding: the wire format, the request/response exchange,
//! default-gateway discovery, the qBittorrent session and the renewal loop,
//! each as a function from plain values to plain values with a proved contract.
//!
//! Nothing in this crate performs I/O.  A caller sends what a function asks to
//! be sent and hands back what arrived.

pub mod addr;
pub mod gateway;
pub mod interface;
pub mod natpmp;
pub mod qbt;
pub mod session;
pub mod text;
pub mod transaction;

pub use addr::Ipv4Addr;
pub use gateway::parse_proc_net_route;
pub use natpmp::{validate_response_bytes, NatpmpClient, PortMapping, Protocol};
