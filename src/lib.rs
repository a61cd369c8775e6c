pub mod batch;
pub mod cli;
pub mod discovery;
pub mod error;
pub mod features;
pub mod layout;
pub mod output;
pub mod platform;
pub mod sorting;
pub mod text;
pub mod types;
