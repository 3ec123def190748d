//! Fetches a workspace's custom emoji catalog and downloads each emoji image,
//! reporting progress.
//!
//! The verified core lives here: the text rules (alias marker, file extension,
//! destination filename), the error taxonomy, the catalog model, and the
//! download driver's state machine. The thin shell around it (environment,
//! HTTP, filesystem, console progress) drives the state machine from outside.

pub mod catalog;
pub mod driver;
pub mod errors;
pub mod text;
