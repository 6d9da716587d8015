//! Where packages live in the remote registry.

use vstd::prelude::*;
use vstd::string::StringExecFns;

verus! {

/// Root of the repository that serves the registry files.
pub const REPO_LINK: &'static str = "https://raw.githubusercontent.com/sty00a4-code/apollo/master";

/// The registry location of `package`, as a sequence of characters.
pub open spec fn spec_package_file_link(package: Seq<char>) -> Seq<char> {
    REPO_LINK@ + "/registry/"@ + package
}

/// The URL under which the registry serves the file of `package`.
pub fn package_file_link(package: &str) -> (link: String)
    ensures
        link@ == spec_package_file_link(package@),
{
    let mut link = String::from_str(REPO_LINK);
    link.append("/registry/");
    link.append(package);
    link
}

} // verus!
