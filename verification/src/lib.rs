//! Compiles a `vless://` share link into a configuration document for a proxy
//! engine, and models the four sections of such a document.

pub mod configurator;
pub mod datamanager;
pub mod defaults;
pub mod dns;
pub mod error;
pub mod inbound;
pub mod json;
pub mod log;
pub mod outbound;
pub mod route;
pub mod scan;
pub mod shared;
pub mod text;
pub mod uri;
