//! Core logic of a book reader with offline downloads: encoding, URL rewriting,
//! the local book store queries, the download task registry and the download loop.

pub mod text;
pub mod base64;
pub mod images;
pub mod models;
pub mod manager;
pub mod clock;
pub mod store;
pub mod db;
pub mod download;
pub mod config;
