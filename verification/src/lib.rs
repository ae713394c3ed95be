pub mod config;
pub mod crypto;
pub mod model;
pub mod params;
pub mod plan;
