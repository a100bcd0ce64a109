//! Reading configuration files: the errors a loader reports, and the
//! table and key lookups that the loaders share.

pub mod errors;
pub mod file;
pub mod utils;
