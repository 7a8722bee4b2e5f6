//! How results are presented, and the answer to commands that do nothing yet.

use vstd::prelude::*;

verus! {

/// How a command's result is printed: as text or as JSON.
#[derive(Clone, Copy, Debug, PartialEq, Eq, Structural)]
pub enum OutputFormat {
    Text,
    Json,
}

/// The message for a command that is not implemented.
pub open spec fn placeholder_text(command: Seq<char>) -> Seq<char> {
    "`music "@ + command + "` is not implemented yet. Use `music "@ + command
        + " --help` to preview its planned behavior."@
}

/// Refuses a command that is not implemented, naming it in the message.
pub fn handle_placeholder(command: &str) -> (r: Result<(), String>)
    ensures
        r matches Err(m) && m@ == placeholder_text(command@),
{
    let mut m = String::new();
    m.append("`music ");
    m.append(command);
    m.append("` is not implemented yet. Use `music ");
    m.append(command);
    m.append(" --help` to preview its planned behavior.");
    Err(m)
}

} // verus!
