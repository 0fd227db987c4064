//! Verified core of the shared service: text utilities, reading-time estimation,
//! code-block highlighting, the domain model and the resolver decision flow.

pub mod text;
pub mod read_time;
pub mod highlight;
pub mod line_highlighter;
pub mod models;
pub mod schemas;
pub mod resolvers;
pub mod experience;
pub mod service;
