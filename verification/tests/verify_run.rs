use noirlings::messages::{completion_message, failure_message, running_message, success_message};
use noirlings::exercise::Mode;
use noirlings::verify::{VerifyAction, VerifyRun};

fn drive(passes: &[bool], progress: (usize, usize)) -> (VerifyRun, VerifyAction) {
    let mut run = VerifyRun::new(passes.len(), progress);
    let mut action = run.next_action();
    while let VerifyAction::Check(i) = action {
        action = run.record(passes[i]);
    }
    (run, action)
}

#[test]
fn all_passing_finishes() {
    let (run, action) = drive(&[true, true, true], (2, 10));
    assert_eq!(action, VerifyAction::Finished);
    assert_eq!(run.num_done, 5);
    assert_eq!(run.total, 10);
}

#[test]
fn stops_at_first_failure() {
    let (run, action) = drive(&[true, false, true, false], (0, 4));
    assert_eq!(action, VerifyAction::Failed(1));
    assert_eq!(run.num_done, 1);
    assert_eq!(run.position, 1);
}

#[test]
fn empty_list_finishes_at_once() {
    let run = VerifyRun::new(0, (3, 3));
    assert_eq!(run.next_action(), VerifyAction::Finished);
}

#[test]
fn messages_per_mode() {
    assert_eq!(running_message(Mode::Compile, "a.nr"), "Compiling a.nr exercise...");
    assert_eq!(running_message(Mode::Execute, "a.nr"), "Executing a.nr exercise...");
    assert_eq!(running_message(Mode::Test, "a.nr"), "Testing a.nr exercise...");
    assert_eq!(failure_message(Mode::Compile, "a.nr"), "Compilation of a.nr failed! Please try again.");
    assert_eq!(failure_message(Mode::Execute, "a.nr"), "Execution of a.nr failed! Please try again.");
    assert_eq!(
        failure_message(Mode::Test, "a.nr"),
        "Testing of a.nr failed! Please try again. Here's the output:"
    );
    assert_eq!(success_message(Mode::Compile, "a.nr"), "Successfully compiled a.nr!");
    assert_eq!(success_message(Mode::Execute, "a.nr"), "Successfully executed a.nr!");
    assert_eq!(success_message(Mode::Test, "a.nr"), "Successfully tested a.nr!");
    assert_eq!(completion_message(Mode::Compile), "The code is compiling!");
    assert_eq!(completion_message(Mode::Execute), "The code is executing successfully!");
    assert_eq!(completion_message(Mode::Test), "The code is compiling, and the tests pass!");
}
