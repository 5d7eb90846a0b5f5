//! Wake-on-LAN core library.
//!
//! Parses textual MAC addresses, builds the 102-byte magic packet, and
//! derives the IPv4 broadcast networks the packet is sent to.

pub mod errors;
pub mod mac;
pub mod net;
pub mod packet;
pub mod resolver;
