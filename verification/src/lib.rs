//! Build slide decks from markdown: the text transformations, the page
//! layout, and the decisions of the build and watch loops, each with a
//! machine-checked contract.

pub mod config;
pub mod error;
pub mod html;
pub mod markdown;
pub mod pending;
pub mod pipeline;
pub mod preprocessor;
pub mod server;
pub mod style;
pub mod stylematter;
pub mod text;
pub mod unveil;
pub mod watcher;
