pub mod cmd;
pub mod config;
pub mod error;
pub mod index;
pub mod plan;
pub mod release;
pub mod replace;
pub mod req;
pub mod tag;
pub mod template;
pub mod text;
pub mod version;
