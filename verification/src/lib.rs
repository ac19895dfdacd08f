//! Parses one line of a long-form directory listing into a record of its fields.
//!
//! A line holds, in this order, a mode string of ten characters, a link count,
//! the owner, the group, the size, the month, day and time of the last change,
//! and the name of the entry, which a `" -> "` may separate from the target it
//! links to:
//!
//! ```text
//! lrwxrwxrwx 1 owner group 10 Jun 11 10:15 link.txt -> file1.txt
//! ```
//!
//! [`parse`] reads such a line into a [`FileInfo`]. What it returns is stated
//! over the characters of the line by `parse::parse_line`. The modules
//! `grammar` and `render` prove what follows from that statement: that every
//! line of the layout above is read field by field as it is written, and that
//! the line which writes a parsed record parses to that record again.

pub mod chars;
pub mod file_info;
pub mod grammar;
pub mod link;
pub mod number;
pub mod parse;
pub mod render;
pub mod tokenizer;
pub mod trim;

pub use file_info::FileInfo;
pub use parse::parse;
