//! Core of a selective outbound-traffic blocker: it compiles a set of CIDR
//! blocks into platform filtering rules (a netfilter-style table of drop rules
//! on one platform, a single declarative firewall rule on the other), models
//! the installed filter state so that install and teardown can be reasoned
//! about, classifies processes launched from a target directory into a control
//! group, and decides the small control-channel protocol used to stop a
//! running daemon.
//!
//! Everything here is pure logic over plain values; the privileged system
//! calls (netlink submission, control-group writes, sockets) are performed by
//! the surrounding program, which feeds their outcomes back into this crate.

pub mod cgroup;
pub mod classify;
pub mod daemon;
pub mod modal;
pub mod net;
pub mod nft;
pub mod ping;
pub mod prefixes;
pub mod regions;
pub mod textutil;
pub mod winfw;
