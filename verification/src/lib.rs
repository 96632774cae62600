pub mod command;
pub mod decode;
pub mod dispatch;
pub mod error;
pub mod leaves;
pub mod notify;
pub mod pattern;
pub mod render;
pub mod schema;
pub mod snapshot;
pub mod text;
pub mod xpath;
