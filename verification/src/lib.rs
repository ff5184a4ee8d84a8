//! Session, pairing and device-state logic behind the webhook server that
//! lets web applications drive devices through the engine.
pub mod keyed;
pub mod text;
pub mod environment;
pub mod session_manager;
pub mod json;
pub mod webhook_server;
pub mod firebase_auth;
