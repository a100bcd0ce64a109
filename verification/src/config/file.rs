//! What the program found when it looked for its configuration file.

use vstd::prelude::*;

verus! {

/// The outcome of looking for the configuration file next to the
/// executable and reading it.
pub enum ConfigFile {
    /// The path of the executable could not be found.
    PathUnavailable,
    /// No file exists at the configuration path.
    Missing,
    /// The file exists but could not be read as text.
    Unreadable,
    /// The text of the file.
    Contents(String),
}

} // verus!
