//! Turns a plain-language task description into a request for a language
//! model, and the model's reply into a single shell command.

pub mod confirm;
pub mod extract;
pub mod failure;
pub mod json;
pub mod request;
pub mod response;
pub mod sanitize;
pub mod text;
