//! The older naming scheme: format strings with tags in braces, checked
//! against the tags it knows.

pub mod format_string;
pub mod tag;
