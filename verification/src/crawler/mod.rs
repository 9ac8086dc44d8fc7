//! Chapter document rendering, outcome vocabulary and chapter-number discovery.

pub mod discovery;
pub mod parser;
pub mod types;

pub use parser::{build_html_document, escape_html};
pub use types::{
    answered_step, chapter_file_name, existing_chapter_step, CrawlStatus, ExistingChapterDecision, ExistingFilePolicy,
    ExistingStep,
};
