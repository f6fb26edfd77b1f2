//! Support library for command-line applications: a tokenizer that splits
//! the raw argument list into options and their values, an error type with
//! a report-once lifecycle, and plain-text rendering of tables and help
//! screens with ANSI decoration.

pub mod args;
pub mod decorate;
pub mod error;
pub mod grid;
pub mod help;

pub use args::Arguments;
pub use decorate::AnsiColor;
pub use decorate::AnsiStyle;
pub use decorate::clear_decoration;
pub use decorate::decorate;
pub use decorate::decorate_color;
pub use decorate::decorate_multiple;
pub use decorate::decorate_style;
pub use error::CliError;
pub use error::ErrorLevel;
pub use grid::GridDisplay;
pub use help::HelpDisplay;
pub use help::OptionEntry;
