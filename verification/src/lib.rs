//! The rules of the VideoGrab download manager, apart from its input and output.

pub mod base64;
pub mod command;
pub mod download;
pub mod history;
pub mod identity;
pub mod install;
pub mod item;
pub mod media;
pub mod names;
pub mod numbers;
pub mod output;
pub mod platform;
pub mod queue;
pub mod release;
pub mod report;
pub mod settings;
pub mod text;
pub mod version;
