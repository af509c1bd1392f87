//! The commands the tool offers, as plain data. The command-line front end
//! parses its arguments into this shape.

use vstd::prelude::*;

verus! {

/// One invocation of the tool.
#[derive(Clone, Debug)]
pub enum Commands {
    /// Show the pet's mood, health and other details.
    Status,
    /// Feed the pet from the registered repositories' recent commits.
    Feed,
    /// Play with the pet.
    Play,
    /// Register a git repository as a food source.
    AddRepo { path: String },
    /// Unregister a git repository.
    RemoveRepo { path: String },
    /// List the registered repositories.
    ListRepos,
    /// Log in.
    Login,
    /// Log out.
    Logout,
    /// Show who is logged in.
    Whoami,
    /// Adopt a pet.
    NewPet,
    /// Let the pet go.
    RemovePet,
}

} // verus!
