//! Runtime state of a link-redirection service: the code-to-URL cache, the
//! session-token store, the geolocation cache with negative entries, and the
//! decisions of the redirect path and of the click-logging pipeline.

pub mod admin;
pub mod auth;
pub mod cache;
pub mod click;
pub mod config;
pub mod db;
pub mod geo;
pub mod ip;
pub mod models;
pub mod redirect;
pub mod text;
