//! The texts shown while exercises are checked.

use vstd::prelude::*;
use crate::exercise::Mode;

verus! {

/// The announcement before an exercise is checked.
pub open spec fn running_text(mode: Mode, path: Seq<char>) -> Seq<char> {
    match mode {
        Mode::Compile => "Compiling "@ + path + " exercise..."@,
        Mode::Execute => "Executing "@ + path + " exercise..."@,
        Mode::Test => "Testing "@ + path + " exercise..."@,
    }
}

/// The warning after a check failed.
pub open spec fn failure_text(mode: Mode, path: Seq<char>) -> Seq<char> {
    match mode {
        Mode::Compile => "Compilation of "@ + path + " failed! Please try again."@,
        Mode::Execute => "Execution of "@ + path + " failed! Please try again."@,
        Mode::Test => "Testing of "@ + path + " failed! Please try again. Here's the output:"@,
    }
}

/// The message after a check succeeded.
pub open spec fn success_text(mode: Mode, path: Seq<char>) -> Seq<char> {
    match mode {
        Mode::Compile => "Successfully compiled "@ + path + "!"@,
        Mode::Execute => "Successfully executed "@ + path + "!"@,
        Mode::Test => "Successfully tested "@ + path + "!"@,
    }
}

/// What a learner is told when the check passes but the marker is still there.
pub open spec fn completion_text(mode: Mode) -> Seq<char> {
    match mode {
        Mode::Compile => "The code is compiling!"@,
        Mode::Execute => "The code is executing successfully!"@,
        Mode::Test => "The code is compiling, and the tests pass!"@,
    }
}

/// `prefix`, then `path`, then `suffix`.
fn surround(prefix: &str, path: &str, suffix: &str) -> (text: String)
    ensures
        text@ == prefix@ + path@ + suffix@,
{
    let text = String::from_str(prefix);
    let text = text.concat(path);
    text.concat(suffix)
}

/// The announcement before an exercise at `path` is checked.
pub fn running_message(mode: Mode, path: &str) -> (text: String)
    ensures
        text@ == running_text(mode, path@),
{
    proof {
        reveal_strlit("Compiling ");
        reveal_strlit("Executing ");
        reveal_strlit("Testing ");
        reveal_strlit(" exercise...");
    }
    match mode {
        Mode::Compile => surround("Compiling ", path, " exercise..."),
        Mode::Execute => surround("Executing ", path, " exercise..."),
        Mode::Test => surround("Testing ", path, " exercise..."),
    }
}

/// The warning after the check of the exercise at `path` failed.
pub fn failure_message(mode: Mode, path: &str) -> (text: String)
    ensures
        text@ == failure_text(mode, path@),
{
    proof {
        reveal_strlit("Compilation of ");
        reveal_strlit("Execution of ");
        reveal_strlit("Testing of ");
        reveal_strlit(" failed! Please try again.");
        reveal_strlit(" failed! Please try again. Here's the output:");
    }
    match mode {
        Mode::Compile => surround("Compilation of ", path, " failed! Please try again."),
        Mode::Execute => surround("Execution of ", path, " failed! Please try again."),
        Mode::Test => surround(
            "Testing of ",
            path,
            " failed! Please try again. Here's the output:",
        ),
    }
}

/// The message after the check of the exercise at `path` succeeded.
pub fn success_message(mode: Mode, path: &str) -> (text: String)
    ensures
        text@ == success_text(mode, path@),
{
    proof {
        reveal_strlit("Successfully compiled ");
        reveal_strlit("Successfully executed ");
        reveal_strlit("Successfully tested ");
        reveal_strlit("!");
    }
    match mode {
        Mode::Compile => surround("Successfully compiled ", path, "!"),
        Mode::Execute => surround("Successfully executed ", path, "!"),
        Mode::Test => surround("Successfully tested ", path, "!"),
    }
}

/// What a learner is told when the check passes but the marker is still there.
pub fn completion_message(mode: Mode) -> (text: String)
    ensures
        text@ == completion_text(mode),
{
    proof {
        reveal_strlit("The code is compiling!");
        reveal_strlit("The code is executing successfully!");
        reveal_strlit("The code is compiling, and the tests pass!");
    }
    match mode {
        Mode::Compile => String::from_str("The code is compiling!"),
        Mode::Execute => String::from_str("The code is executing successfully!"),
        Mode::Test => String::from_str("The code is compiling, and the tests pass!"),
    }
}

} // verus!
