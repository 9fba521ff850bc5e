//! Request capture, filtering and classification logic for a MongoDB
//! traffic inspector.

pub mod text;
pub mod types;
pub mod bson;
pub mod model;
pub mod command;
pub mod filter;
pub mod intercept;
pub mod proxy;
pub mod theme;
pub mod mcp_panel;
pub mod connections;
pub mod buckets;
pub mod sidebar;
pub mod feed;
pub mod sidebar_state;
pub mod inspector;
pub mod mcp;
pub mod app_state;
pub mod mock;
pub mod mock_docs;
pub mod compose;
