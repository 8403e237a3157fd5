//! The GELF side of the gateway: framing, inflating and parsing.

pub mod acceptor;
pub mod chunk;
pub mod error;
pub mod gelf_message_processor;
pub mod gelf_reader;
pub mod reader;
pub mod reassembly;
pub mod tcp_acceptor;
pub mod udp_acceptor;
pub mod unpacking;
