use noirlings::course::{
    count_done, exercise_row, find_exercise, find_start, list_header, list_row, status_label,
    FindError,
};
use noirlings::exercise::{Exercise, Mode};

fn course() -> Vec<Exercise> {
    ["intro1", "intro2", "vars1", "intro2"]
        .iter()
        .enumerate()
        .map(|(i, n)| Exercise {
            name: n.to_string(),
            path: format!("exercises/e{i}.nr"),
            mode: Mode::Compile,
            hint: format!("hint {i}"),
        })
        .collect()
}

#[test]
fn next_is_the_first_pending_exercise() {
    let ex = course();
    assert_eq!(find_exercise("next", &ex, &vec![true, true, false, false]), Ok(2));
    assert_eq!(find_exercise("next", &ex, &vec![false, true, false, false]), Ok(0));
    assert_eq!(find_exercise("next", &ex, &vec![true; 4]), Err(FindError::AllDone));
}

#[test]
fn by_name_is_the_first_with_that_name() {
    let ex = course();
    let done = vec![false; 4];
    assert_eq!(find_exercise("intro2", &ex, &done), Ok(1));
    assert_eq!(find_exercise("vars1", &ex, &done), Ok(2));
    assert_eq!(find_exercise("missing", &ex, &done), Err(FindError::NotFound));
    assert_eq!(find_start(&ex, "vars1"), Some(2));
    assert_eq!(find_start(&ex, "nope"), None);
}

#[test]
fn counting_done_exercises() {
    assert_eq!(count_done(&vec![]), 0);
    assert_eq!(count_done(&vec![true, false, true, true]), 3);
}

#[test]
fn list_rows_are_padded_columns() {
    assert_eq!(status_label(true), "Done");
    assert_eq!(status_label(false), "Pending");
    let expected = format!("{:<17}\t{:<46}\t{:<7}", "Name", "Path", "Status");
    assert_eq!(list_header(), expected);
    let ex = course();
    let expected = format!("{:<17}\t{:<46}\t{:<7}", "intro1", "exercises/e0.nr", "Done");
    assert_eq!(exercise_row(&ex[0], true), expected);
    let long = "a_very_long_exercise_name_beyond_width";
    let expected = format!("{:<17}\t{:<46}\t{:<7}", long, "p", "Pending");
    assert_eq!(list_row(long, "p", "Pending"), expected);
}

#[test]
fn next_is_recognised() {
    assert!(noirlings::course::is_next("next"));
    assert!(!noirlings::course::is_next("next "));
    assert!(!noirlings::course::is_next("intro1"));
}
