//! Network throughput sampling: parsers that turn each platform's counter
//! source into cumulative byte totals, and a monitor that turns successive
//! totals into per-poll rates.

pub mod text;
pub mod stats;
pub mod monitor;
pub mod json;
pub mod reader;
pub mod theme;
