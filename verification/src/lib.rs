pub mod commands;
pub mod episode_store;
pub mod episodes;
pub mod error;
pub mod host;
pub mod laws;
pub mod lookup;
pub mod model;
pub mod resources;
pub mod rewrite;
pub mod rss;
pub mod store;
pub mod text;
pub mod uploads;
pub mod xml;
