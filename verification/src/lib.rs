//! The verified core of a network diagnostics and benchmarking toolkit.

pub mod action;
pub mod action_laws;
pub mod af_xdp;
pub mod agent_client;
pub mod agent_protocol;
pub mod benchmark;
pub mod digest;
pub mod domain;
pub mod dpdk;
pub mod dpdk_safe;
pub mod error;
pub mod handled;
pub mod helper;
pub mod helper_protocol;
pub mod helper_server;
pub mod identity;
pub mod identity_laws;
pub mod json;
pub mod net;
pub mod net_laws;
pub mod node_protocol;
pub mod numbers;
pub mod octets;
pub mod pcap;
pub mod protobuf;
pub mod random;
pub mod record;
pub mod rio;
pub mod rio_laws;
pub mod schema;
pub mod schema_laws;
pub mod text;
pub mod text_laws;
pub mod vault;
