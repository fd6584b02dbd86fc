//! The command surface, as plain data.  Argument parsing itself happens
//! outside the library; these types are what a parsed invocation amounts to.

use vstd::prelude::*;

verus! {

/// A parsed invocation: an optional subcommand, an optional profile override
/// and the trailing words of the request.
pub struct Cli {
    pub command: Option<Commands>,
    pub profile: Option<String>,
    pub args: Vec<String>,
}

/// The one subcommand family: profile management.
pub enum Commands {
    Profile { action: ProfileAction },
}

/// Which stored field an edit targets.
pub enum EditField {
    Json { name: String },
    Prompt { name: String },
}

/// The profile-management actions.
pub enum ProfileAction {
    New { name: String },
    Edit { name: String },
    EditJson { name: String },
    Use { name: String },
    Remove { name: String },
    List,
}

} // verus!
