//! A small HTTP instance server: request parsing, response rendering, the
//! registry of running instances and the command line, with their contracts.

pub mod text;
pub mod strmap;
pub mod headers;
pub mod request;
pub mod response;
pub mod server;
pub mod cli;
pub mod api;
pub mod lua;
