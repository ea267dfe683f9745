//! Control and management API of a node.

pub mod answers;
pub mod base64url;
pub mod bytes;
pub mod control;
pub mod format_laws;
pub mod json;
pub mod json_laws;
pub mod limits;
pub mod listing;
pub mod media_type_laws;
pub mod node;
pub mod node_laws;
pub mod paging;
pub mod passing_back;
pub mod registry;
pub mod registry_laws;
pub mod reply;
pub mod reply_laws;
pub mod request;
pub mod request_laws;
pub mod route_laws;
pub mod routes;
pub mod store;
pub mod text;
pub mod views;
