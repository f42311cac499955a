//! The packet and entry sources.

pub mod bpf_filter;
pub mod kernel_ts;
pub mod pcap;
pub mod udp;
pub mod addr;
pub mod jito;
