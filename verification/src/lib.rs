//! Verified core of a novel downloader: text cleaning and escaping, chapter
//! and EPUB document rendering, site adapters' pure parsing, run planning and
//! progress bookkeeping.

pub mod clock;
pub mod crawler;
pub mod epub;
pub mod execution;
pub mod html;
pub mod order;
pub mod pattern;
pub mod recent_fonts;
pub mod runner;
pub mod session;
pub mod sites;
pub mod source;
pub mod text;
pub mod ui;
pub mod unicode;
pub mod urls;
pub mod utils;
