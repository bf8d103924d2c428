//! Writing out what the checker found.

pub mod buffer;
pub mod counts;
pub mod github;
pub mod human;
pub mod json;
pub mod numbers;
pub mod traits;

pub use self::buffer::BufferOutput;
pub use self::github::GitHubReporter;
pub use self::human::HumanReporter;
pub use self::json::JsonReporter;
pub use self::traits::{Color, ColoredOutput, Output, Piece, Reporter, ReporterWithOutput};
