//! A small web server core: wire codec, route table and request dispatcher.

pub mod args;
pub mod config;
pub mod css;
pub mod first_run;
pub mod html;
pub mod http;
pub mod markdown;
pub mod metadata;
pub mod mime;
pub mod pattern;
pub mod printing;
pub mod requests_handler;
pub mod router;
pub mod text;
