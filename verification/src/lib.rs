//! Readers and writers for the file formats of the Genie engine games.
pub mod codec;
pub mod serializer;
pub mod rec;
pub mod dat;
pub mod text;
pub mod lang;
pub mod deflate;
pub mod hki;
pub mod drs;
pub mod cpx;
