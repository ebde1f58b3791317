use noirlings::exercise::{Exercise, Mode};
use noirlings::text::{pad_right, same_text, trimmed};
use noirlings::watch::{
    first_set_flag, is_noir_source, needs_recheck, parse_shell_command, recheck_after_edit,
    recheck_from_flags, watch_step, FileEvent, ShellCommand, WatchStatus,
};

fn exercises(paths: &[&str]) -> Vec<Exercise> {
    paths
        .iter()
        .map(|p| Exercise {
            name: p.to_string(),
            path: p.to_string(),
            mode: Mode::Test,
            hint: String::new(),
        })
        .collect()
}

#[test]
fn edited_exercise_comes_first_then_other_pending_ones() {
    let flags = vec![false, false, true, false];
    let done = vec![false, true, false, false];
    assert_eq!(recheck_from_flags(&flags, &done), vec![2, 0, 3]);
    assert_eq!(recheck_from_flags(&vec![false; 3], &vec![true, false, false]), vec![1, 2]);
    assert_eq!(first_set_flag(&vec![false, true, true]), Some(1));
    assert_eq!(first_set_flag(&vec![false]), None);
}

#[test]
fn edit_matched_by_whole_path_components() {
    let ex = exercises(&["exercises/a/one.nr", "exercises/a/two.nr", "exercises/b/three.nr"]);
    let done = vec![false, false, true];
    let order = recheck_after_edit(&ex, &done, "/home/me/noirlings/exercises/a/two.nr");
    assert_eq!(order, vec![1, 0]);
    // "xtwo.nr" does not end with the component "two.nr"
    let order = recheck_after_edit(&ex, &done, "/home/me/exercises/a/xtwo.nr");
    assert_eq!(order, vec![0, 1]);
}

#[test]
fn only_noir_sources_count() {
    assert!(is_noir_source("/tmp/exercises/a.nr"));
    assert!(!is_noir_source("/tmp/exercises/a.rs"));
    assert!(!is_noir_source("/tmp/exercises/.nr"));
    assert!(!is_noir_source("/tmp/exercises/nr"));
}

#[test]
fn shell_commands_ignore_surrounding_space() {
    assert_eq!(parse_shell_command("hint\n"), ShellCommand::Hint);
    assert_eq!(parse_shell_command("  clear  "), ShellCommand::Clear);
    assert_eq!(parse_shell_command("quit\r\n"), ShellCommand::Quit);
    assert_eq!(parse_shell_command("\u{3000}help"), ShellCommand::Help);
    assert_eq!(parse_shell_command(" hints \n"), ShellCommand::Unknown("hints".to_string()));
    assert_eq!(parse_shell_command("\n"), ShellCommand::Unknown(String::new()));
}

#[test]
fn text_helpers() {
    assert_eq!(trimmed("  a b \t\n"), "a b");
    assert_eq!(trimmed(" \n "), "");
    assert!(same_text("abc", "abc"));
    assert!(!same_text("abc", "abd"));
    assert_eq!(pad_right("ab", 5), "ab   ");
    assert_eq!(pad_right("abcdef", 3), "abcdef");
    assert_eq!(pad_right("é", 3), "é  ");
}

#[test]
fn which_events_cause_a_recheck() {
    assert!(needs_recheck(FileEvent::Write, "/x/a.nr", true));
    assert!(needs_recheck(FileEvent::Create, "/x/a.nr", true));
    assert!(needs_recheck(FileEvent::Chmod, "/x/a.nr", true));
    assert!(!needs_recheck(FileEvent::Other, "/x/a.nr", true));
    assert!(!needs_recheck(FileEvent::Write, "/x/a.nr", false));
    assert!(!needs_recheck(FileEvent::Write, "/x/a.toml", true));
}

#[test]
fn how_watch_mode_ends() {
    assert_eq!(watch_step(Some(true), false), Some(WatchStatus::Finished));
    assert_eq!(watch_step(Some(true), true), Some(WatchStatus::Finished));
    assert_eq!(watch_step(Some(false), true), Some(WatchStatus::Unfinished));
    assert_eq!(watch_step(None, true), Some(WatchStatus::Unfinished));
    assert_eq!(watch_step(Some(false), false), None);
    assert_eq!(watch_step(None, false), None);
}
