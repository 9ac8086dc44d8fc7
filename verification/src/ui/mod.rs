//! Terminal-independent logic behind the interactive screens.

pub mod plan;
pub mod progress;
pub mod prompts;
pub mod text_area;
pub mod wizard;
