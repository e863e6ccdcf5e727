//! A chat over TCP that frames messages with a big-endian length prefix,
//! and the small text-processing tools that grew next to it.

pub mod text;
pub mod constants;
pub mod framing;
pub mod clock;
pub mod message;
pub mod numbers;
pub mod env_args;
pub mod server;
pub mod utils;
pub mod lecture09;
pub mod transform;
pub mod lecture05;
pub mod lecture07;
pub mod lecture13;
pub mod lecture02;
