//! Client-side file-attachment resolution for a remote API that mixes JSON
//! parameters with binary file uploads.
//!
//! A file to send is either a *reference* the remote side already understands
//! (a file id, a URL, or an `attach://<name>` token) or raw bytes still
//! *pending* upload.  Before a request is serialized, an extraction pass walks
//! its file-bearing fields, moves each pending file out into an ordered list of
//! named binary parts, and leaves an `attach://<name>` reference behind, so
//! that the remaining structure serializes as plain JSON.

pub mod extract;
pub mod input_file;
pub mod names;
pub mod serialize;
