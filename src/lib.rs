pub mod config;
pub mod engine;
pub mod ledger;
pub mod media;
pub mod message;
pub mod selector;
pub mod text;
