//! Projection of line-oriented JSON records into comma-separated rows.
//!
//! A record is parsed into a [`value::Value`], optionally expanded into
//! several records by a list of flatten paths, and then projected through
//! an ordered column specification into one text row per record.

pub mod config;
pub mod flatten;
pub mod render;
pub mod resolve;
pub mod row;
pub mod value;

pub use config::parse_args;
pub use config::Config;
pub use config::ConfigError;
pub use flatten::flatten_record;
pub use render::render_cell;
pub use resolve::resolve;
pub use resolve::resolve_take;
pub use row::get_header;
pub use row::process_line;
pub use row::process_lines;
pub use row::RunOutput;
pub use row::project_record;
pub use row::project_row;
pub use value::Value;
