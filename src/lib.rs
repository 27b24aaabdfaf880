//! The request-processing core of a dynamic DNS update service.
//!
//! A client reports its addresses; for each domain of the authenticated user the library
//! works out the records to publish and writes the commands for the program that updates
//! the DNS server. Addresses are plain integers here: an IPv4 address is a `u32`, an IPv6
//! address a `u128`, most significant bits first.

pub mod address;
pub mod config;
pub mod credential;
pub mod ipv6lanprefix;
pub mod listen;
pub mod process;
pub mod search;
pub mod text;
