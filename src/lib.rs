//! Delivery of text messages to a chat bot endpoint: dialect-aware escaping,
//! text transforms, and the fallback cascade between markup dialects.
pub mod client;
pub mod configuration;
pub mod error;
pub mod formatter;
pub mod markup;
pub mod options;
mod text;

pub use client::{Attempt, Delivery, Dialect, Response, Stage, Step};
pub use configuration::{ClientOptions, Configuration, FormattingOptions};
pub use error::Error;
pub use formatter::Formatter;
