pub mod classify;
pub mod emit;
pub mod fingerprint;
pub mod scanner;
pub mod text;

pub use classify::{analyze_line, MatchResult};
pub use emit::u64_to_string;
pub use fingerprint::hash_query;
pub use scanner::{CrunchState, OutputRecord};
pub use text::strip_spaces;
