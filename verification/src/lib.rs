pub mod db;
pub mod error;
pub mod poller;
pub mod text;
pub mod time;
pub mod web;
