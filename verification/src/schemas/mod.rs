//! The GraphQL schema's plain data: inputs, filters and enumerations.

pub mod blog;
pub mod shared;
pub mod user;
