pub mod common;
pub mod entity;
pub mod error;
pub mod json_schema;
pub mod model;
pub mod relation;
pub mod sql;
pub mod urn;
pub mod utils;
