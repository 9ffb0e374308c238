//! Real-time core of a small forum: the wire protocol shared by clients and
//! server, the session hub that fans updates out to connected clients, the
//! periodic karma settlement, and the per-connection request handling.

pub mod client;
pub mod codec;
pub mod cookie;
pub mod endpoint;
pub mod format;
pub mod hub;
pub mod models;
pub mod settlement;
pub mod text;
pub mod token;
pub mod protocol;
pub mod routes;
