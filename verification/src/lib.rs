//! Documentation and linting of PostgreSQL schemas and of the SQL embedded in code.
pub mod text;
pub mod name_map;
pub mod doc;
pub mod intermediate;
pub mod lint;
pub mod config;
pub mod report;
pub mod render;
