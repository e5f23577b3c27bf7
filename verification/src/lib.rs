pub mod config;
pub mod errors;
pub mod front_matter;
pub mod page;
pub mod paths;
pub mod render;
pub mod section;
pub mod tera_api;
