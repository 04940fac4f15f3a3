//! Pulls a container image through a local daemon and keeps track of the
//! progress that the daemon reports.
//!
//! The daemon answers a pull with a chunked body of JSON progress objects,
//! one for each step of each layer. This library decodes what a read of that
//! body brings ([`chunked`], over [`lines`] and [`text`]), merges the objects
//! into one document with an entry for each layer ([`progress`]), and writes
//! the document out as the snapshot that is kept on disk ([`snapshot`]). JSON
//! values are the library's own ([`json`]); JSON text is read and written by
//! `serde_json` ([`codec`]).
//!
//! The run itself and the reporter beside it are machines that decide and
//! leave the doing to their caller ([`pull`], [`reporter`]): nothing in this
//! library opens a socket, touches a file or sleeps.

pub mod chunked;
pub mod codec;
pub mod json;
pub mod lines;
pub mod progress;
pub mod pull;
pub mod reporter;
pub mod snapshot;
pub mod text;
