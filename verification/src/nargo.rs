//! What the `nargo` tool is asked to do for an exercise, and how its
//! answer is read.

use vstd::prelude::*;

verus! {

/// The three `nargo` subcommands an exercise can be checked with.
#[derive(Clone, Copy, Debug, PartialEq, Eq, Structural)]
pub enum NargoCommand {
    Compile,
    Execute,
    Test,
}

/// The arguments handed to `nargo` for each subcommand.
pub open spec fn command_args(command: NargoCommand) -> Seq<Seq<char>> {
    match command {
        NargoCommand::Compile => seq!["compile"@],
        NargoCommand::Execute => seq!["execute"@],
        NargoCommand::Test => seq!["test"@, "--show-output"@],
    }
}

/// The words that open the error of a failed run.
pub open spec fn failure_label(command: NargoCommand) -> Seq<char> {
    match command {
        NargoCommand::Compile => "Compilation failed"@,
        NargoCommand::Execute => "Execution failed"@,
        NargoCommand::Test => "Tests failed"@,
    }
}

impl NargoCommand {
    /// The arguments to pass to `nargo` for this subcommand.
    pub fn args(self) -> (args: Vec<String>)
        ensures
            args@.map_values(|a: String| a@) == command_args(self),
    {
        let mut args: Vec<String> = Vec::new();
        match self {
            NargoCommand::Compile => {
                args.push(String::from_str("compile"));
                proof { reveal_strlit("compile"); }
            },
            NargoCommand::Execute => {
                args.push(String::from_str("execute"));
                proof { reveal_strlit("execute"); }
            },
            NargoCommand::Test => {
                args.push(String::from_str("test"));
                args.push(String::from_str("--show-output"));
                proof {
                    reveal_strlit("test");
                    reveal_strlit("--show-output");
                }
            },
        }
        assert(args@.map_values(|a: String| a@) =~= command_args(self));
        args
    }
}

/// What a finished `nargo` process reported.
pub struct CommandOutput {
    /// Whether the process exited successfully.
    pub success: bool,
    /// Its standard output.
    pub stdout: String,
    /// Its standard error.
    pub stderr: String,
}

/// A `nargo` run that did not succeed.
pub struct NargoError {
    /// The subcommand that failed.
    pub command: NargoCommand,
    /// What `nargo` wrote to standard error.
    pub stderr: String,
}

impl NargoError {
    /// The error text: the failure label, a colon, and `nargo`'s stderr.
    pub fn message(&self) -> (msg: String)
        ensures
            msg@ == failure_label(self.command) + ": "@ + self.stderr@,
    {
        let label = match self.command {
            NargoCommand::Compile => "Compilation failed",
            NargoCommand::Execute => "Execution failed",
            NargoCommand::Test => "Tests failed",
        };
        proof {
            reveal_strlit("Compilation failed");
            reveal_strlit("Execution failed");
            reveal_strlit("Tests failed");
        }
        let msg = String::from_str(label);
        let msg = msg.concat(": ");
        msg.concat(self.stderr.as_str())
    }
}

/// Reads the outcome of a `nargo` run: its standard output when it
/// succeeded, otherwise an error that carries its standard error.
pub fn nargo_result(command: NargoCommand, output: CommandOutput) -> (res: Result<String, NargoError>)
    ensures
        res == nargo_result_spec(command, output),
        output.success ==> res == Ok::<String, NargoError>(output.stdout),
        !output.success ==> (res matches Err(e) && e.command == command && e.stderr == output.stderr),
{
    if output.success {
        Ok(output.stdout)
    } else {
        Err(NargoError { command, stderr: output.stderr })
    }
}

/// Reads the outcome of `nargo compile`.
pub fn nargo_compile(output: CommandOutput) -> (res: Result<String, NargoError>)
    ensures
        res == nargo_result_spec(NargoCommand::Compile, output),
        output.success ==> res == Ok::<String, NargoError>(output.stdout),
        !output.success ==> (res matches Err(e) && e.command == NargoCommand::Compile && e.stderr == output.stderr),
{
    nargo_result(NargoCommand::Compile, output)
}

/// Reads the outcome of `nargo execute`.
pub fn nargo_execute(output: CommandOutput) -> (res: Result<String, NargoError>)
    ensures
        res == nargo_result_spec(NargoCommand::Execute, output),
        output.success ==> res == Ok::<String, NargoError>(output.stdout),
        !output.success ==> (res matches Err(e) && e.command == NargoCommand::Execute && e.stderr == output.stderr),
{
    nargo_result(NargoCommand::Execute, output)
}

/// Reads the outcome of `nargo test --show-output`.
pub fn nargo_test(output: CommandOutput) -> (res: Result<String, NargoError>)
    ensures
        res == nargo_result_spec(NargoCommand::Test, output),
        output.success ==> res == Ok::<String, NargoError>(output.stdout),
        !output.success ==> (res matches Err(e) && e.command == NargoCommand::Test && e.stderr == output.stderr),
{
    nargo_result(NargoCommand::Test, output)
}

/// The reading of a run's outcome, as a value.
pub open spec fn nargo_result_spec(command: NargoCommand, output: CommandOutput) -> Result<String, NargoError> {
    if output.success {
        Ok(output.stdout)
    } else {
        Err(NargoError { command, stderr: output.stderr })
    }
}

/// A run that succeeded is read as its standard output, whatever that
/// output holds, even nothing; a run that failed is read as an error of
/// that subcommand carrying its standard error.
pub proof fn lemma_nargo_reading(command: NargoCommand, output: CommandOutput)
    ensures
        output.success ==> nargo_result_spec(command, output) == Ok::<String, NargoError>(output.stdout),
        !output.success ==> (nargo_result_spec(command, output) matches Err(e)
            && e.command == command && e.stderr == output.stderr),
{
}

/// Each subcommand is passed to `nargo` under its own name, and only
/// testing asks for the program's output to be shown.
pub proof fn lemma_command_args(command: NargoCommand)
    ensures
        command_args(command).len() >= 1,
        command == NargoCommand::Compile <==> command_args(command)[0] == "compile"@,
        command == NargoCommand::Execute <==> command_args(command)[0] == "execute"@,
        command == NargoCommand::Test <==> command_args(command)[0] == "test"@,
        command == NargoCommand::Test <==> command_args(command).len() == 2,
{
    reveal_strlit("compile");
    reveal_strlit("execute");
    reveal_strlit("test");
    assert("compile"@[0] != "execute"@[0] && "compile"@[0] != "test"@[0] && "execute"@[0] != "test"@[0]);
}

} // verus!
