pub mod apdu;
pub mod bridge;
pub mod codec;
pub mod config;
pub mod engine;
pub mod npdu;
pub mod poller;
pub mod registry;
pub mod services;
pub mod text;
