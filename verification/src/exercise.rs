//! Exercises, and whether the learner has finished one.

use vstd::prelude::*;
use crate::nargo::{
    nargo_compile, nargo_execute, nargo_result_spec, nargo_test, CommandOutput, NargoCommand,
    NargoError,
};
use crate::pattern::{find_marker, has_marker, lemma_marker_in_larger_text, marker_at};
use crate::text::{lemma_line_in_source, lemma_lines_have_no_newline, lines_of, split_lines};

verus! {

/// How many lines are shown on each side of the marker line.
pub const CONTEXT: usize = 2;

/// How an exercise is checked.
#[derive(Clone, Copy, Debug, PartialEq, Eq, Structural)]
pub enum Mode {
    Compile,
    Execute,
    Test,
}

/// The exercises of the course, in their recommended order.
#[derive(Clone, Debug)]
pub struct ExerciseList {
    pub exercises: Vec<Exercise>,
}

/// One exercise of the course.
#[derive(Clone, Debug)]
pub struct Exercise {
    /// Name of the exercise.
    pub name: String,
    /// The path to the file holding the exercise's source code.
    pub path: String,
    /// How the exercise is checked.
    pub mode: Mode,
    /// The hint shown to a learner who is stuck.
    pub hint: String,
}

/// A line of an exercise shown around the marker.
#[derive(Debug, PartialEq)]
pub struct ContextLine {
    /// The text of the line, without its terminator.
    pub line: String,
    /// Its line number, counted from 1.
    pub number: usize,
    /// Whether it is the marker line itself.
    pub important: bool,
}

/// Whether an exercise is finished, and if not, where the marker stands.
#[derive(Debug, PartialEq)]
pub enum State {
    Done,
    Pending(Vec<ContextLine>),
}

/// A context line as a value.
pub struct ContextLineView {
    pub line: Seq<char>,
    pub number: int,
    pub important: bool,
}

/// A state as a value.
pub enum StateView {
    Done,
    Pending(Seq<ContextLineView>),
}

impl View for ContextLine {
    type V = ContextLineView;

    open spec fn view(&self) -> ContextLineView {
        ContextLineView { line: self.line@, number: self.number as int, important: self.important }
    }
}

impl View for State {
    type V = StateView;

    open spec fn view(&self) -> StateView {
        match self {
            State::Done => StateView::Done,
            State::Pending(lines) => StateView::Pending(lines@.map_values(|c: ContextLine| c@)),
        }
    }
}

/// `i` is the first line of `lines` that holds the marker.
pub open spec fn first_marked_line(lines: Seq<Seq<char>>, i: int) -> bool {
    &&& 0 <= i < lines.len()
    &&& has_marker(lines[i])
    &&& forall|j: int| 0 <= j < i ==> !#[trigger] has_marker(lines[j])
}

/// The sources whose state can be told: if the marker is found in the
/// whole source, it is found on a line (it is not, for instance, split
/// over two lines).
pub open spec fn state_defined(source: Seq<char>) -> bool {
    has_marker(source) ==> exists|i: int| first_marked_line(lines_of(source), i)
}

/// The lines shown around line `i`: up to `CONTEXT` lines before and
/// after it, numbered from 1, with line `i` marked important.
pub open spec fn context_window(lines: Seq<Seq<char>>, i: int) -> Seq<ContextLineView> {
    let lo = if i >= CONTEXT { i - CONTEXT } else { 0 };
    let hi = if i + CONTEXT < lines.len() { i + CONTEXT } else { lines.len() - 1 };
    Seq::new(
        (hi - lo + 1) as nat,
        |k: int| ContextLineView { line: lines[lo + k], number: lo + k + 1, important: lo + k == i },
    )
}

/// The state of an exercise whose source is `source`.
pub open spec fn state_of(source: Seq<char>) -> StateView {
    if has_marker(source) {
        let lines = lines_of(source);
        StateView::Pending(context_window(lines, choose|i: int| first_marked_line(lines, i)))
    } else {
        StateView::Done
    }
}

/// The context lines around line `index` of `lines`.
pub fn pending_context(lines: &Vec<String>, index: usize) -> (context: Vec<ContextLine>)
    requires
        index < lines.len(),
    ensures
        context@.map_values(|c: ContextLine| c@) == context_window(
            lines@.map_values(|l: String| l@),
            index as int,
        ),
        context@.len() >= 1,
        context@[0].number == (if index >= CONTEXT { index + 1 - CONTEXT } else { 1 }),
        context@[context@.len() - 1].number == (if index + CONTEXT < lines.len() {
            index + 1 + CONTEXT
        } else {
            lines.len() as int
        }),
        forall|k: int| 0 <= k < context@.len() ==> {
            &&& #[trigger] context@[k].line@ == lines@[context@[k].number - 1]@
            &&& (context@[k].important <==> context@[k].number == index + 1)
        },
        forall|k: int| 0 < k < context@.len() ==> #[trigger] context@[k].number == context@[k - 1].number + 1,
{
    let ghost views = lines@.map_values(|l: String| l@);
    let lo: usize = if index >= CONTEXT { index - CONTEXT } else { 0 };
    let hi: usize = if lines.len() - index > CONTEXT { index + CONTEXT } else { lines.len() - 1 };
    let mut context: Vec<ContextLine> = Vec::new();
    let mut k: usize = lo;
    while k <= hi
        invariant
            lo <= k <= hi + 1,
            hi < lines.len(),
            lo <= index <= hi,
            views == lines@.map_values(|l: String| l@),
            lo == (if index >= CONTEXT { index - CONTEXT } else { 0 }),
            hi == (if index + CONTEXT < lines.len() { index + CONTEXT } else { lines.len() - 1 }),
            context@.len() == k - lo,
            forall|j: int| 0 <= j < k - lo ==> #[trigger] context@[j]@ == context_window(views, index as int)[j],
        decreases hi + 1 - k,
    {
        context.push(ContextLine { line: lines[k].clone(), number: k + 1, important: k == index });
        k = k + 1;
    }
    assert(context@.map_values(|c: ContextLine| c@) =~= context_window(views, index as int));
    proof {
        lemma_context_window_shape(views, index as int);
        let w = context_window(views, index as int);
        assert forall|k: int| 0 <= k < context@.len() implies context@[k]@ == w[k] by {
            assert(context@.map_values(|c: ContextLine| c@)[k] == context@[k]@);
        }
        assert(context@[0]@ == w[0]);
        assert(context@[context@.len() - 1]@ == w[w.len() - 1]);
        assert forall|k: int| 0 <= k < context@.len() implies {
            &&& #[trigger] context@[k].line@ == lines@[context@[k].number - 1]@
            &&& (context@[k].important <==> context@[k].number == index + 1)
        } by {
            assert(context@[k]@ == w[k]);
            assert(w[k].line == views[w[k].number - 1]);
        }
        assert forall|k: int| 0 < k < context@.len() implies #[trigger] context@[k].number == context@[k - 1].number + 1 by {
            assert(context@[k]@ == w[k]);
            assert(context@[k - 1]@ == w[k - 1]);
        }
    }
    context
}

impl State {
    /// Whether the exercise is finished.
    pub fn is_done(&self) -> (done: bool)
        ensures
            done == (self@ is Done),
    {
        match self {
            State::Done => true,
            State::Pending(_) => false,
        }
    }
}

impl Exercise {
    /// How the exercise is shown to the learner: its path.
    pub fn to_string(&self) -> (text: String)
        ensures
            text@ == self.path@,
    {
        self.path.clone()
    }

    /// The subcommand of `nargo` that checks this exercise.
    pub fn command(&self) -> (command: NargoCommand)
        ensures
            command == command_for(self.mode),
            self.mode == Mode::Compile <==> command == NargoCommand::Compile,
            self.mode == Mode::Execute <==> command == NargoCommand::Execute,
            self.mode == Mode::Test <==> command == NargoCommand::Test,
    {
        match self.mode {
            Mode::Compile => NargoCommand::Compile,
            Mode::Execute => NargoCommand::Execute,
            Mode::Test => NargoCommand::Test,
        }
    }

    /// Reads the outcome of compiling this exercise with `nargo compile`.
    pub fn compile(&self, output: CommandOutput) -> (res: Result<String, NargoError>)
        ensures
            res == nargo_result_spec(NargoCommand::Compile, output),
            output.success ==> res == Ok::<String, NargoError>(output.stdout),
            !output.success ==> (res matches Err(e) && e.command == NargoCommand::Compile
                && e.stderr == output.stderr),
    {
        nargo_compile(output)
    }

    /// Reads the outcome of executing this exercise with `nargo execute`.
    pub fn execute(&self, output: CommandOutput) -> (res: Result<String, NargoError>)
        ensures
            res == nargo_result_spec(NargoCommand::Execute, output),
            output.success ==> res == Ok::<String, NargoError>(output.stdout),
            !output.success ==> (res matches Err(e) && e.command == NargoCommand::Execute
                && e.stderr == output.stderr),
    {
        nargo_execute(output)
    }

    /// Reads the outcome of testing this exercise with `nargo test`.
    pub fn test(&self, output: CommandOutput) -> (res: Result<String, NargoError>)
        ensures
            res == nargo_result_spec(NargoCommand::Test, output),
            output.success ==> res == Ok::<String, NargoError>(output.stdout),
            !output.success ==> (res matches Err(e) && e.command == NargoCommand::Test
                && e.stderr == output.stderr),
    {
        nargo_test(output)
    }

    /// The state of this exercise, given the text of its source file, or
    /// `None` where the marker is found in the source but on no single line.
    pub fn try_state(&self, source: &str) -> (res: Option<State>)
        ensures
            res is Some <==> state_defined(source@),
            res matches Some(s) ==> s@ == state_of(source@),
    {
        if !find_marker(source) {
            return Some(State::Done);
        }
        let lines = split_lines(source);
        let ghost views = lines@.map_values(|l: String| l@);
        let mut i: usize = 0;
        while i < lines.len()
            invariant
                views == lines@.map_values(|l: String| l@),
                views == lines_of(source@),
                has_marker(source@),
                i <= lines.len(),
                forall|j: int| 0 <= j < i ==> !#[trigger] has_marker(views[j]),
            decreases lines.len() - i,
        {
            let m = find_marker(lines[i].as_str());
            assert(views[i as int] == lines[i as int]@);
            if m {
                assert(first_marked_line(views, i as int));
                proof { lemma_first_marked_unique(views, i as int); }
                return Some(State::Pending(pending_context(&lines, i)));
            }
            i = i + 1;
        }
        assert forall|k: int| !first_marked_line(views, k) by {
            if first_marked_line(views, k) {
                assert(!has_marker(views[k]));
            }
        }
        None
    }

    /// The state of this exercise, given the text of its source file.
    pub fn state(&self, source: &str) -> (s: State)
        requires
            state_defined(source@),
        ensures
            s@ == state_of(source@),
    {
        match self.try_state(source) {
            Some(s) => s,
            None => State::Done,
        }
    }

    /// Whether this exercise is finished: its source no longer holds the marker.
    pub fn looks_done(&self, source: &str) -> (done: bool)
        requires
            state_defined(source@),
        ensures
            done == (state_of(source@) is Done),
            done == !has_marker(source@),
    {
        match self.state(source) {
            State::Done => true,
            State::Pending(_) => false,
        }
    }
}

/// The subcommand that checks an exercise of each mode.
pub open spec fn command_for(mode: Mode) -> NargoCommand {
    match mode {
        Mode::Compile => NargoCommand::Compile,
        Mode::Execute => NargoCommand::Execute,
        Mode::Test => NargoCommand::Test,
    }
}

/// The lines shown for a pending exercise: at least the marker line and
/// at most `CONTEXT` lines on each side of it, in file order, numbered
/// from 1 without gaps, and only the marker line is marked important.
pub proof fn lemma_context_window_shape(lines: Seq<Seq<char>>, i: int)
    requires
        0 <= i < lines.len(),
    ensures
        ({
            let w = context_window(lines, i);
            &&& 1 <= w.len() <= 2 * CONTEXT + 1
            &&& w[0].number == (if i + 1 > CONTEXT + 1 { i + 1 - CONTEXT } else { 1 })
            &&& w[w.len() - 1].number == (if i + 1 + CONTEXT < lines.len() { i + 1 + CONTEXT } else { lines.len() as int })
            &&& forall|j: int| #![trigger lines[j]] 0 <= j < lines.len() && i - CONTEXT <= j <= i + CONTEXT
                ==> exists|k: int| 0 <= k < w.len() && w[k].number == j + 1 && w[k].line == lines[j]
            &&& forall|k: int| 0 <= k < w.len() ==> {
                &&& 1 <= #[trigger] w[k].number <= lines.len()
                &&& w[k].line == lines[w[k].number - 1]
                &&& i + 1 - CONTEXT <= w[k].number <= i + 1 + CONTEXT
                &&& (w[k].important <==> w[k].number == i + 1)
            }
            &&& forall|k: int| 0 < k < w.len() ==> #[trigger] w[k].number == w[k - 1].number + 1
            &&& exists|k: int| 0 <= k < w.len() && #[trigger] w[k].important && w[k].line == lines[i]
        }),
{
    let w = context_window(lines, i);
    let lo = if i >= CONTEXT { i - CONTEXT } else { 0 };
    assert(w[i - lo].important);
    assert forall|k: int| 0 <= k < w.len() implies {
        &&& 1 <= #[trigger] w[k].number <= lines.len()
        &&& w[k].line == lines[w[k].number - 1]
        &&& i + 1 - CONTEXT <= w[k].number <= i + 1 + CONTEXT
        &&& (w[k].important <==> w[k].number == i + 1)
    } by {
        assert(w[k].number == lo + k + 1);
        assert(w[k].line == lines[lo + k]);
    }
    assert forall|j: int| #![trigger lines[j]] 0 <= j < lines.len() && i - CONTEXT <= j <= i + CONTEXT
        implies exists|k: int| 0 <= k < w.len() && w[k].number == j + 1 && w[k].line == lines[j] by {
        assert(w[j - lo].number == j + 1);
    }
    assert(1 <= w.len() <= 2 * CONTEXT + 1);
    assert(w[0].number == (if i + 1 > CONTEXT + 1 { i + 1 - CONTEXT } else { 1 }));
    assert(w[w.len() - 1].number == (if i + 1 + CONTEXT < lines.len() { i + 1 + CONTEXT } else { lines.len() as int }));
    assert(forall|k: int| 0 < k < w.len() ==> #[trigger] w[k].number == w[k - 1].number + 1);
}

/// An exercise is not done while a line of its source still holds the
/// marker: the marker found on a line is found in the whole source.
pub proof fn lemma_marker_line_keeps_pending(source: Seq<char>, i: int)
    requires
        0 <= i < lines_of(source).len(),
        has_marker(lines_of(source)[i]),
    ensures
        has_marker(source),
        state_of(source) is Pending,
{
    let line = lines_of(source)[i];
    lemma_lines_have_no_newline(source);
    let p = choose|p: int| 0 <= p <= line.len() && (p == 0 || line[p - 1] == '\n') && #[trigger] marker_at(line, p);
    if p > 0 {
        assert(lines_of(source)[i][p - 1] != '\n');
    }
    assert(p == 0);
    lemma_line_in_source(source, i);
    let st = choose|st: int|
        {
            &&& 0 <= st
            &&& st + line.len() <= source.len()
            &&& #[trigger] source.subrange(st, st + line.len()) == line
            &&& (st == 0 || source[st - 1] == '\n')
        };
    lemma_marker_in_larger_text(source, line, st, 0);
    assert(0 <= st + 0 <= source.len() && (st + 0 == 0 || source[st + 0 - 1] == '\n') && marker_at(source, st + 0));
}

/// Each mode is checked with its own subcommand: compiling, executing or
/// testing, and no two modes share one.
pub proof fn lemma_mode_command(mode: Mode)
    ensures
        mode == Mode::Compile <==> command_for(mode) == NargoCommand::Compile,
        mode == Mode::Execute <==> command_for(mode) == NargoCommand::Execute,
        mode == Mode::Test <==> command_for(mode) == NargoCommand::Test,
{
}

/// At most one line is the first to hold the marker.
pub proof fn lemma_first_marked_unique(lines: Seq<Seq<char>>, i: int)
    requires
        first_marked_line(lines, i),
    ensures
        forall|k: int| first_marked_line(lines, k) ==> k == i,
{
    assert forall|k: int| first_marked_line(lines, k) implies k == i by {
        if k < i {
            assert(!has_marker(lines[k]));
        } else if k > i {
            assert(!has_marker(lines[i]));
        }
    }
}

} // verus!
