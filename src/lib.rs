//! Webhook dispatch engine: command templating over request bodies,
//! request signature validation, and the hook sequence around each action.

pub mod json;
pub mod template;
pub mod secret_validation;
pub mod action;
pub mod error;
pub mod settings;
pub mod endpoint;
pub mod http;
