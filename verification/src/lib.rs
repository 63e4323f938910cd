//! Verified core of an IPv4 packet firewall for validator nodes.
//!
//! The packet path ([`datapath`], [`packet`], [`stats`]) decides on single
//! frames; the control plane ([`updater`] with [`seeding`] and [`refresh`],
//! [`overrides`], [`deny_client`]) decides what the tables in the kernel hold;
//! both speak of addresses and networks as [`network`] and [`ranges`] define
//! them. What holds of all of it together is proved in [`laws`]; what it promises
//! of packets, of the deny list and of each call stands in [`guarantees`],
//! [`upkeep`] and [`contracts`].
pub mod contracts;
pub mod datapath;
pub mod deny_client;
pub mod guarantees;
pub mod laws;
pub mod network;
pub mod overrides;
pub mod packet;
pub mod ranges;
pub mod refresh;
pub mod seeding;
pub mod stats;
pub mod tasks;
pub mod text;
pub mod updater;
pub mod upkeep;
