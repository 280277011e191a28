//! Client-side core of a publish/subscribe/query messaging client: key expressions,
//! selectors, the encoding-tagged value codec, the lifecycle of session-scoped
//! handles and the bridge that hands engine events to caller callbacks.

pub mod aliases;
pub mod bridge;
pub mod config;
pub mod handle;
pub mod json;
pub mod key_expr;
pub mod options;
pub mod properties;
pub mod sample;
pub mod selector;
pub mod session;
pub mod text;
pub mod value;
