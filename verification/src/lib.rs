//! Core logic of a c-lightning plugin that proxies JSON-RPC requests from an
//! HTTP interface to lightningd's unix domain socket.

pub mod async_io;
pub mod json;
pub mod init_info;
pub mod rpc;
pub mod server;
pub mod lightning_socket;
