//! A database-access core: identifier-safe SQL building, a canonical value
//! model with per-engine coercion rules, result export, and the registry
//! that keeps at most one live session per connection id.

pub mod text;
pub mod value;
pub mod error;
pub mod sql_builder;
pub mod models;
pub mod registry;
pub mod drivers;
pub mod export;
pub mod coerce;
pub mod parse;
pub mod tunnel;
pub mod catalog;
pub mod metrics;
pub mod statements;
pub mod settings;
