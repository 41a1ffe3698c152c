//! Verified core of a set of small network tools: an assembler for the
//! Manchester Baby, a UDP chatroom protocol, packet and flow accounting,
//! and the decisions of the echo, fortune and lookup services.

pub mod text;
pub mod baby;
pub mod net;
pub mod chat;
pub mod flows;
pub mod packet;
pub mod headers;
pub mod stats;
pub mod services;
