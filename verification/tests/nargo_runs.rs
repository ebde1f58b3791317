use noirlings::exercise::{Exercise, Mode};
use noirlings::nargo::{
    nargo_compile, nargo_execute, nargo_result, nargo_test, CommandOutput, NargoCommand,
};

fn output(success: bool) -> CommandOutput {
    CommandOutput { success, stdout: "out text".to_string(), stderr: "err text".to_string() }
}

#[test]
fn arguments_per_subcommand() {
    assert_eq!(NargoCommand::Compile.args(), vec!["compile".to_string()]);
    assert_eq!(NargoCommand::Execute.args(), vec!["execute".to_string()]);
    assert_eq!(
        NargoCommand::Test.args(),
        vec!["test".to_string(), "--show-output".to_string()]
    );
}

#[test]
fn success_gives_standard_output() {
    assert_eq!(nargo_compile(output(true)).ok(), Some("out text".to_string()));
    assert_eq!(nargo_execute(output(true)).ok(), Some("out text".to_string()));
    assert_eq!(nargo_test(output(true)).ok(), Some("out text".to_string()));
}

#[test]
fn failure_carries_standard_error() {
    let err = nargo_compile(output(false)).err().unwrap();
    assert_eq!(err.command, NargoCommand::Compile);
    assert_eq!(err.message(), "Compilation failed: err text");
    let err = nargo_execute(output(false)).err().unwrap();
    assert_eq!(err.message(), "Execution failed: err text");
    let err = nargo_test(output(false)).err().unwrap();
    assert_eq!(err.message(), "Tests failed: err text");
    let err = nargo_result(NargoCommand::Test, output(false)).err().unwrap();
    assert_eq!(err.stderr, "err text");
}

#[test]
fn exercise_reads_its_runs() {
    let e = Exercise {
        name: "t".to_string(),
        path: "exercises/t.nr".to_string(),
        mode: Mode::Test,
        hint: String::new(),
    };
    assert_eq!(e.command(), NargoCommand::Test);
    assert_eq!(e.compile(output(true)).ok(), Some("out text".to_string()));
    assert_eq!(e.execute(output(false)).err().unwrap().message(), "Execution failed: err text");
    assert_eq!(e.test(output(false)).err().unwrap().message(), "Tests failed: err text");
}
