pub mod crawl;
pub mod domain;
pub mod scheduler;
pub mod stats;
pub mod structs;
pub mod version;
pub mod visited;
