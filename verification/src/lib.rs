pub mod agent_assist;
pub mod av;
pub mod av_artifacts;
pub mod av_bridge;
pub mod av_laws;
pub mod av_media;
pub mod config;
pub mod connection;
pub mod containers;
pub mod crypto;
pub mod db;
pub mod db_laws;
pub mod irc;
pub mod json;
pub mod manifest;
pub mod server;
pub mod text;
pub mod text_laws;
pub mod time;
