//! Packing files into a zip archive and unpacking one again, for a host
//! that names every path relative to one fixed root directory.
//!
//! The library decides and the host acts. An operation is a value,
//! [`archiver::Archiver`] or [`extractor::Extractor`], that hands out one
//! [`protocol::Request`] at a time and takes the host's
//! [`protocol::Reply`] to the last one; it never touches a file itself.
//! What an operation asks for is fixed by a model over plain mathematical
//! values ([`archive_model`], [`extract_model`]), of which the laws in
//! [`archive_laws`], [`archive_runs`], [`extract_laws`] and
//! [`extract_runs`] are proved.
//!
//! Paths are text. [`path`] splits them into components, finds `..` among
//! these and joins a relative path onto the root; [`enclosed`] tells the
//! entry names that stay inside the directory they are extracted into;
//! [`locate`] finds the directory above a path, the path without its
//! extension and the path relative to a directory; [`naming`] gives the
//! name under which a member is stored. All of this looks at the text of a
//! path alone and follows no symbolic link.

pub mod archive_laws;
pub mod archive_model;
pub mod archive_runs;
pub mod archiver;
pub mod enclosed;
pub mod error;
pub mod extract_laws;
pub mod extract_model;
pub mod extract_runs;
pub mod extractor;
pub mod locate;
pub mod member;
pub mod name_laws;
pub mod naming;
pub mod path;
pub mod path_laws;
pub mod protocol;
pub mod root;
pub mod text;
