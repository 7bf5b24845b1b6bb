//! Defaults for the release configuration document.

use vstd::prelude::*;

verus! {

/// Default editor command used to write release notes.
pub fn default_release_notes_editor() -> (r: String)
    ensures
        r@ == "C:\\Program Files\\Microsoft VS Code\\bin\\code.cmd"@,
{
    String::from_str("C:\\Program Files\\Microsoft VS Code\\bin\\code.cmd")
}

/// Default owner of the repository releases are published to.
pub fn default_repo_owner() -> (r: String)
    ensures
        r@ == "matthewkirby"@,
{
    String::from_str("matthewkirby")
}

/// Default name of the repository releases are published to.
pub fn default_repo_name() -> (r: String)
    ensures
        r@ == "plando-random-settings"@,
{
    String::from_str("plando-random-settings")
}

} // verus!
