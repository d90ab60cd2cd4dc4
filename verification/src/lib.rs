//! The decisions of a webdav server that gives users access to their home directories.
//!
//! A [`server::Server`] takes a request in steps. Each step ends with a question to the outside
//! world (an account, a password, a file) or with the outcome: a response, or what the WebDAV
//! handler is to serve, from where and in whose name.

pub mod config;
pub mod config_laws;
pub mod dav;
pub mod laws;
pub mod message_laws;
pub mod model;
pub mod outside;
pub mod path_laws;
pub mod request;
pub mod response;
pub mod server;
pub mod server_laws;
pub mod text;
pub mod text_laws;
pub mod webpath;
