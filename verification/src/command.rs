//! The commands of the package manager.

use vstd::prelude::*;

verus! {

/// One invocation of the package manager.
#[derive(Debug, Clone)]
pub enum PackageCommand {
    /// Make the current directory a package, called `name` or, without one,
    /// after the directory.
    Init { name: Option<String> },
    /// Create a package called `name` in a new directory of that name.
    New { name: String },
    /// List `name` among the dependencies.
    Add { name: String },
    /// Take `name` off the dependencies.
    Remove { name: String },
    /// Fetch the dependencies.
    Update,
}

impl PackageCommand {
    /// The name a command works on: the package it creates, or the dependency
    /// it adds or removes. `Init` without a name falls back on the name of the
    /// current directory, and has none where that is unknown; `Update` names
    /// nothing.
    pub open spec fn subject(self, directory_name: Option<Seq<char>>) -> Option<Seq<char>> {
        match self {
            PackageCommand::Init { name: Some(name) } => Some(name@),
            PackageCommand::Init { name: None } => directory_name,
            PackageCommand::New { name } => Some(name@),
            PackageCommand::Add { name } => Some(name@),
            PackageCommand::Remove { name } => Some(name@),
            PackageCommand::Update => None,
        }
    }

    /// The name this command works on, given the name of the current
    /// directory where it could be found out.
    pub fn package_name(&self, directory_name: Option<&str>) -> (r: Option<String>)
        ensures
            match r {
                Some(name) => self.subject(text_view(directory_name)) == Some(name@),
                None => self.subject(text_view(directory_name)) is None,
            },
    {
        match self {
            PackageCommand::Init { name: Some(name) } => Some(name.clone()),
            PackageCommand::Init { name: None } => match directory_name {
                Some(name) => Some(name.to_owned()),
                None => None,
            },
            PackageCommand::New { name } => Some(name.clone()),
            PackageCommand::Add { name } => Some(name.clone()),
            PackageCommand::Remove { name } => Some(name.clone()),
            PackageCommand::Update => None,
        }
    }
}

/// An optional text as plain data.
pub open spec fn text_view(text: Option<&str>) -> Option<Seq<char>> {
    match text {
        Some(t) => Some(t@),
        None => None,
    }
}

} // verus!
