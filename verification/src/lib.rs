//! Kernel-side core of a dual-processor instrument controller: the single-slot
//! mailbox channel shared by the kernel and host CPUs, the closed message
//! protocol exchanged over it, the RPC and exception/backtrace bridges, the
//! watchdog and attribute-cache clients, the attribute writeback traversal and
//! the load/initialize/run/report lifecycle, together with the byte-level wire
//! framing used by the network-facing protocols.

pub mod kernel_proto;
pub mod mailbox;
pub mod channel;
pub mod api;
pub mod proto;
pub mod writeback;
pub mod runtime;
pub mod clock;
