//! svgc: a verified core for an SVG-compressing tool.
//!
//! The central piece is a BCP-47 locale negotiation: given the ordered list
//! of locales a program supports and the ordered list of locales a user
//! prefers, pick the single best-matching supported locale.  Around it stand
//! the value-level parts of the tool itself: SVG markup optimization, gzip
//! bookkeeping, and backup-file accounting.  All file, process and terminal
//! work stays with the caller, which hands plain values in and takes plain
//! values back.

pub mod chars;
pub mod files;
pub mod laws;
pub mod optimize;
pub mod resolve;
pub mod score;
pub mod strutil;
pub mod subtags;
pub mod svgz;
pub mod tag;

pub use files::{backup_file_name, generate_temp_dir_name, is_svg_file, SvgFile, SvgFileGroup};
pub use optimize::default_optimize_content;
pub use resolve::{filter_candidates, parse_available, resolve, select_best};
pub use score::score;
pub use tag::{parse, LanguageTag};
