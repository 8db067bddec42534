pub mod api;
pub mod formatting;
pub mod header;
pub mod repo_detail;
pub mod repos;
pub mod webhook_debug;
