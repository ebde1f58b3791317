use noirlings::exercise::{pending_context, ContextLine, Exercise, Mode, State};
use noirlings::pattern::find_marker;
use noirlings::text::split_lines;

fn exercise(mode: Mode) -> Exercise {
    Exercise {
        name: "intro1".to_string(),
        path: "exercises/intro/intro1.nr".to_string(),
        mode,
        hint: "Read the comment".to_string(),
    }
}

fn line(text: &str, number: usize, important: bool) -> ContextLine {
    ContextLine { line: text.to_string(), number, important }
}

#[test]
fn source_without_marker_is_done() {
    let e = exercise(Mode::Compile);
    let source = "fn main() {\n    assert(1 == 1);\n}\n";
    assert_eq!(e.try_state(source), Some(State::Done));
    assert_eq!(e.state(source), State::Done);
    assert!(e.looks_done(source));
}

#[test]
fn marker_shows_two_lines_around_it() {
    let e = exercise(Mode::Test);
    let source = "l1\nl2\nl3\n// I AM NOT DONE\nl5\nl6\nl7\n";
    let expected = State::Pending(vec![
        line("l2", 2, false),
        line("l3", 3, false),
        line("// I AM NOT DONE", 4, true),
        line("l5", 5, false),
        line("l6", 6, false),
    ]);
    assert_eq!(e.try_state(source), Some(expected));
    assert!(!e.looks_done(source));
}

#[test]
fn marker_on_first_line_has_no_lines_before() {
    let e = exercise(Mode::Execute);
    let source = "// I AM NOT DONE\nfn main() {}";
    let expected = State::Pending(vec![
        line("// I AM NOT DONE", 1, true),
        line("fn main() {}", 2, false),
    ]);
    assert_eq!(e.state(source), expected);
}

#[test]
fn first_of_two_markers_is_shown() {
    let e = exercise(Mode::Compile);
    let source = "a\n// I AM NOT DONE\nb\n// I AM NOT DONE\n";
    let expected = State::Pending(vec![
        line("a", 1, false),
        line("// I AM NOT DONE", 2, true),
        line("b", 3, false),
        line("// I AM NOT DONE", 4, false),
    ]);
    assert_eq!(e.state(source), expected);
}

#[test]
fn marker_spelling_variants() {
    assert!(find_marker("   //I   AM  NOT DONE yet"));
    assert!(find_marker("/ I AM NOT DONE"));
    assert!(find_marker("\t// I AM NOT DONE"));
    assert!(!find_marker("// I AM DONE"));
    assert!(!find_marker("// i am not done"));
    assert!(!find_marker("let x = 1; // I AM NOT DONE"));
    assert!(find_marker("x\n  // I AM NOT DONE"));
    assert!(!find_marker("x\r// I AM NOT DONE"));
}

#[test]
fn marker_split_across_lines_cannot_be_placed() {
    let e = exercise(Mode::Compile);
    // The whole source matches, but no single line does.
    assert_eq!(e.try_state("//\nI AM NOT DONE"), None);
}

#[test]
fn crlf_lines_lose_their_carriage_return() {
    let e = exercise(Mode::Compile);
    let source = "x\r\n// I AM NOT DONE\r\ny";
    let expected = State::Pending(vec![
        line("x", 1, false),
        line("// I AM NOT DONE", 2, true),
        line("y", 3, false),
    ]);
    assert_eq!(e.state(source), expected);
}

#[test]
fn pending_context_near_the_end() {
    let lines: Vec<String> = vec!["a", "b", "c", "d"].into_iter().map(String::from).collect();
    let context = pending_context(&lines, 3);
    assert_eq!(
        context,
        vec![line("b", 2, false), line("c", 3, false), line("d", 4, true)]
    );
}

#[test]
fn pending_context_single_line() {
    let lines = vec!["only".to_string()];
    assert_eq!(pending_context(&lines, 0), vec![line("only", 1, true)]);
}

#[test]
fn lines_are_split_like_str_lines() {
    assert_eq!(split_lines(""), Vec::<String>::new());
    assert_eq!(split_lines("\n"), vec![String::new()]);
    assert_eq!(split_lines("a\r\nb\n"), vec!["a".to_string(), "b".to_string()]);
    assert_eq!(split_lines("a\r"), vec!["a\r".to_string()]);
    assert_eq!(split_lines("a\n\nb"), vec!["a".to_string(), String::new(), "b".to_string()]);
    for s in ["x\ny\r\n\r\nz", "é\nü", "\r\n\r\n"] {
        let expected: Vec<String> = s.lines().map(String::from).collect();
        assert_eq!(split_lines(s), expected);
    }
}

#[test]
fn state_is_done_and_display() {
    let e = exercise(Mode::Compile);
    assert!(State::Done.is_done());
    assert!(!State::Pending(vec![]).is_done());
    assert_eq!(e.to_string(), "exercises/intro/intro1.nr");
}

#[test]
fn final_terminator_adds_no_line() {
    for s in ["a", "a\nb", "x\r\ny"] {
        let lf = format!("{s}\n");
        let crlf = format!("{s}\r\n");
        assert_eq!(split_lines(&lf), split_lines(s));
        assert_eq!(split_lines(&crlf), split_lines(s));
    }
}
