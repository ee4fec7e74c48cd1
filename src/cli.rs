//! The command line, as the program receives it once parsed.
use vstd::prelude::*;

verus! {

pub struct Cli {
    pub command: Commands,
    /// Path to the flake to evaluate.
    pub flake: String,
    /// Configuration to extract packages from.
    pub configuration: Option<String>,
    /// Username to locate Home Manager packages from.
    pub username: Option<String>,
    /// Print results in JSON.
    pub json: bool,
    pub home_manager_packages: bool,
    pub system_packages: bool,
}

pub enum Commands {
    /// List update pull requests for packages you use.
    Prs {
        /// GitHub token.
        token: String,
        /// The GitHub repository from which pull requests are fetched.
        repository: String,
        /// Exclude pull requests that have already been shown.
        only_new: bool,
        /// Exclude pull requests not detected to be a version update.
        only_updates: bool,
    },
    /// List packages you use.
    List {},
}

} // verus!
