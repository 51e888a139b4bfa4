//! Language files: string tables keyed by number or name.
pub mod string_key;
pub mod lang_file;
pub mod syntax;
pub mod encoding;
pub mod pe_strings;
