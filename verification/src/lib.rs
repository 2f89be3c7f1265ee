//! A local proxy that spaces the requests of a command-line client, retries
//! what an upstream refuses for its rate, and keeps one worker per API key.

pub mod control;
pub mod credentials;
pub mod digits;
pub mod env_export;
pub mod gateway;
pub mod headers;
pub mod identity;
pub mod ini;
pub mod json;
pub mod keys;
pub mod launcher;
pub mod lifecycle;
pub mod pacing;
pub mod paths;
pub mod proxy;
pub mod settings;
pub mod startup;
pub mod text;
