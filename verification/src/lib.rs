//! File serving over a byte stream, and the devices that hand the served tree to a guest.

pub mod activation;
pub mod activation_laws;
pub mod caching;
pub mod config;
pub mod device;
pub mod error;
mod host;
pub mod inbox;
pub mod inodes;
pub mod proxy;
pub mod proxy_laws;
pub mod range_fetch;
pub mod reply;
pub mod reply_laws;
pub mod request;
pub mod server;
pub mod server_laws;
pub mod text;
pub mod text_laws;
pub mod vhost_user;
pub mod vhost_user_laws;
pub mod wire;
pub mod wire_laws;
