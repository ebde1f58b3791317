//! The decisions of watch mode: which edited files matter, what to check
//! again after an edit, and what the learner typed.

use vstd::prelude::*;
use crate::exercise::Exercise;
use crate::text::{same_text, trim_of, trimmed};

verus! {

/// What `std::path::Path::ends_with` answers for `path` and `child`:
/// whether `child` is made of the last whole components of `path`.
pub uninterp spec fn path_ends_with(path: Seq<char>, child: Seq<char>) -> bool;

/// What `std::path::Path::extension` gives for `path`, as text: the part
/// of the file name after its last `.`, if there is one.
pub uninterp spec fn path_extension(path: Seq<char>) -> Option<Seq<char>>;

/// Calls `Path::ends_with`. The contract names the answer only: it is a
/// function of the two paths, compared component by component.
#[verifier::external_body]
pub(crate) fn path_ends_with_exec(path: &str, child: &str) -> (res: bool)
    ensures
        res == path_ends_with(path@, child@),
{
    std::path::Path::new(path).ends_with(child)
}

/// Calls `Path::extension` and converts the extension to a `String` with
/// `OsStr::to_str` (a piece of a `&str` is always valid text). The
/// contract names the answer only: a function of the path.
#[verifier::external_body]
pub(crate) fn path_extension_of(path: &str) -> (res: Option<String>)
    ensures
        match res {
            Some(ext) => path_extension(path@) == Some(ext@),
            None => path_extension(path@) is None,
        },
{
    match std::path::Path::new(path).extension() {
        Some(ext) => match ext.to_str() {
            Some(text) => Some(text.to_string()),
            None => None,
        },
        None => None,
    }
}

/// Whether an edited file is a Noir source, one with the extension `nr`.
pub fn is_noir_source(path: &str) -> (res: bool)
    ensures
        res == (path_extension(path@) == Some("nr"@)),
{
    match path_extension_of(path) {
        Some(ext) => same_text(ext.as_str(), "nr"),
        None => false,
    }
}

/// The kinds of file-system events watch mode hears of.
#[derive(Clone, Copy, Debug, PartialEq, Eq, Structural)]
pub enum FileEvent {
    Create,
    Chmod,
    Write,
    /// Any other event.
    Other,
}

/// Whether an event on the file at `path` calls for checking exercises
/// again: a file was created, had its permissions changed or was written,
/// it is a Noir source, and it exists.
pub fn needs_recheck(event: FileEvent, path: &str, exists: bool) -> (res: bool)
    ensures
        res == ((event is Create || event is Chmod || event is Write)
            && path_extension(path@) == Some("nr"@) && exists),
{
    match event {
        FileEvent::Other => false,
        _ => is_noir_source(path) && exists,
    }
}

/// How watch mode ended.
#[derive(Clone, Copy, Debug, PartialEq, Eq, Structural)]
pub enum WatchStatus {
    /// Every exercise is done.
    Finished,
    /// The learner quit first.
    Unfinished,
}

/// After one round of watch mode: `checked` is `Some(all_passed)` when the
/// exercises were checked again, `quit` whether the learner asked to
/// quit. Watch mode ends as finished once a check passes everything, else
/// as unfinished when the learner quit, else it goes on (`None`).
pub fn watch_step(checked: Option<bool>, quit: bool) -> (res: Option<WatchStatus>)
    ensures
        checked == Some(true) ==> res == Some(WatchStatus::Finished),
        checked != Some(true) && quit ==> res == Some(WatchStatus::Unfinished),
        checked != Some(true) && !quit ==> res is None,
{
    match checked {
        Some(true) => Some(WatchStatus::Finished),
        _ => if quit {
            Some(WatchStatus::Unfinished)
        } else {
            None
        },
    }
}

/// `i` is the first flag that is set.
pub open spec fn first_set(flags: Seq<bool>, i: int) -> bool {
    &&& 0 <= i < flags.len()
    &&& flags[i]
    &&& forall|j: int| 0 <= j < i ==> !#[trigger] flags[j]
}

/// The indices below `n`, in order, of exercises neither done nor edited.
pub open spec fn untouched_pending(edited: Seq<bool>, done: Seq<bool>, n: int) -> Seq<int>
    decreases n,
{
    if n <= 0 {
        Seq::empty()
    } else {
        untouched_pending(edited, done, n - 1) + if !done[n - 1] && !edited[n - 1] {
            seq![n - 1]
        } else {
            Seq::empty()
        }
    }
}

/// The order in which exercises are checked again after an edit: first
/// the exercise whose file was edited, then every other exercise that is
/// not done, in course order.
pub open spec fn recheck_order(edited: Seq<bool>, done: Seq<bool>) -> Seq<int> {
    let first = if exists|i: int| first_set(edited, i) {
        seq![choose|i: int| first_set(edited, i)]
    } else {
        Seq::empty()
    };
    first + untouched_pending(edited, done, edited.len() as int)
}

proof fn lemma_first_set_unique(flags: Seq<bool>, i: int, k: int)
    requires
        first_set(flags, i),
        first_set(flags, k),
    ensures
        i == k,
{
    if i < k {
        assert(!flags[i]);
    } else if k < i {
        assert(!flags[k]);
    }
}

/// The first flag that is set, if any.
pub fn first_set_flag(flags: &Vec<bool>) -> (res: Option<usize>)
    ensures
        res matches Some(i) ==> first_set(flags@, i as int),
        res is None ==> forall|j: int| 0 <= j < flags@.len() ==> !#[trigger] flags@[j],
{
    let mut i: usize = 0;
    while i < flags.len()
        invariant
            i <= flags@.len(),
            forall|j: int| 0 <= j < i ==> !#[trigger] flags@[j],
        decreases flags.len() - i,
    {
        if flags[i] {
            return Some(i);
        }
        i = i + 1;
    }
    None
}

/// Orders the exercises to check again, given for each exercise whether
/// its path ends the edited file's path and whether it is done.
pub fn recheck_from_flags(edited: &Vec<bool>, done: &Vec<bool>) -> (order: Vec<usize>)
    requires
        edited.len() == done.len(),
    ensures
        order@.map_values(|i: usize| i as int) == recheck_order(edited@, done@),
{
    let mut order: Vec<usize> = Vec::new();
    let found = first_set_flag(edited);
    match found {
        Some(i) => order.push(i),
        None => {},
    }
    let ghost first = order@.map_values(|i: usize| i as int);
    proof {
        if exists|k: int| first_set(edited@, k) {
            let k = choose|k: int| first_set(edited@, k);
            match found {
                Some(i) => lemma_first_set_unique(edited@, k, i as int),
                None => assert(!edited@[k]),
            }
        } else {
            if let Some(i) = found {
                assert(first_set(edited@, i as int));
            }
        }
        assert(first =~= (if exists|k: int| first_set(edited@, k) {
            seq![choose|k: int| first_set(edited@, k)]
        } else {
            Seq::<int>::empty()
        }));
    }
    let mut j: usize = 0;
    while j < edited.len()
        invariant
            j <= edited@.len(),
            edited@.len() == done@.len(),
            order@.map_values(|i: usize| i as int) == first + untouched_pending(edited@, done@, j as int),
        decreases edited.len() - j,
    {
        let ghost before = order@;
        if !done[j] && !edited[j] {
            order.push(j);
            assert(order@.map_values(|i: usize| i as int) =~= before.map_values(|i: usize| i as int).push(j as int));
        }
        assert(untouched_pending(edited@, done@, j + 1) == untouched_pending(edited@, done@, j as int)
            + if !done@[j as int] && !edited@[j as int] { seq![j as int] } else { Seq::<int>::empty() });
        assert(order@.map_values(|i: usize| i as int) =~= first + untouched_pending(edited@, done@, j + 1));
        j = j + 1;
    }
    order
}

/// The exercises to check again after the file at `changed` was edited,
/// `done[k]` telling whether exercise `k` is done.
pub fn recheck_after_edit(exercises: &Vec<Exercise>, done: &Vec<bool>, changed: &str) -> (order: Vec<usize>)
    requires
        done.len() == exercises.len(),
    ensures
        order@.map_values(|i: usize| i as int) == recheck_order(
            Seq::new(exercises@.len(), |k: int| path_ends_with(changed@, exercises@[k].path@)),
            done@,
        ),
{
    let mut edited: Vec<bool> = Vec::new();
    let mut k: usize = 0;
    while k < exercises.len()
        invariant
            k <= exercises@.len(),
            edited@ == Seq::new(k as nat, |m: int| path_ends_with(changed@, exercises@[m].path@)),
        decreases exercises.len() - k,
    {
        let e = path_ends_with_exec(changed, exercises[k].path.as_str());
        edited.push(e);
        assert(edited@ =~= Seq::new((k + 1) as nat, |m: int| path_ends_with(changed@, exercises@[m].path@)));
        k = k + 1;
    }
    recheck_from_flags(&edited, done)
}

/// The indices kept by `untouched_pending` are exactly those of the
/// exercises below `n` that are neither done nor edited, in increasing order.
pub proof fn lemma_untouched_pending(edited: Seq<bool>, done: Seq<bool>, n: int)
    requires
        0 <= n <= edited.len(),
        edited.len() == done.len(),
    ensures
        forall|p: int, q: int|
            0 <= p < q < untouched_pending(edited, done, n).len() ==> untouched_pending(edited, done, n)[p]
                < untouched_pending(edited, done, n)[q],
        forall|p: int|
            0 <= p < untouched_pending(edited, done, n).len() ==> {
                let k = #[trigger] untouched_pending(edited, done, n)[p];
                0 <= k < n && !done[k] && !edited[k]
            },
        forall|k: int|
            0 <= k < n && !done[k] && !edited[k] ==> untouched_pending(edited, done, n).contains(k),
    decreases n,
{
    if n > 0 {
        lemma_untouched_pending(edited, done, n - 1);
        let prev = untouched_pending(edited, done, n - 1);
        let cur = untouched_pending(edited, done, n);
        assert forall|k: int| 0 <= k < n && !done[k] && !edited[k] implies cur.contains(k) by {
            if k < n - 1 {
                let p = choose|p: int| 0 <= p < prev.len() && prev[p] == k;
                assert(cur[p] == k);
            } else {
                assert(cur[cur.len() - 1] == k);
            }
        }
    }
}

/// After an edit, the edited exercise (the first whose path ends the
/// edited file's path) is checked first; after it come, in course order
/// and each once, exactly the exercises that are neither done nor edited.
pub proof fn lemma_recheck_order(edited: Seq<bool>, done: Seq<bool>)
    requires
        edited.len() == done.len(),
    ensures
        forall|i: int| first_set(edited, i) ==> recheck_order(edited, done)[0] == i,
        ({
            let order = recheck_order(edited, done);
            let rest = if exists|i: int| first_set(edited, i) { order.drop_first() } else { order };
            &&& forall|p: int, q: int| 0 <= p < q < rest.len() ==> rest[p] < rest[q]
            &&& forall|p: int| 0 <= p < rest.len() ==> {
                let k = #[trigger] rest[p];
                0 <= k < edited.len() && !done[k] && !edited[k]
            }
            &&& forall|k: int| 0 <= k < edited.len() && !done[k] && !edited[k] ==> rest.contains(k)
        }),
{
    lemma_untouched_pending(edited, done, edited.len() as int);
    let tail = untouched_pending(edited, done, edited.len() as int);
    assert forall|i: int| first_set(edited, i) implies recheck_order(edited, done)[0] == i by {
        let c = choose|c: int| first_set(edited, c);
        lemma_first_set_unique(edited, i, c);
    }
    if exists|i: int| first_set(edited, i) {
        let c = choose|c: int| first_set(edited, c);
        assert(recheck_order(edited, done).drop_first() =~= tail);
    } else {
        assert(recheck_order(edited, done) =~= tail);
    }
}

/// A command typed in watch mode.
#[derive(Debug, PartialEq)]
pub enum ShellCommand {
    /// Show the hint of the exercise that failed last.
    Hint,
    /// Clear the screen.
    Clear,
    /// Leave watch mode.
    Quit,
    /// List the commands.
    Help,
    /// Anything else; holds the trimmed input.
    Unknown(String),
}

/// Reads a line typed in watch mode, ignoring surrounding white space.
pub fn parse_shell_command(input: &str) -> (cmd: ShellCommand)
    ensures
        ({
            let t = trim_of(input@);
            &&& t == "hint"@ <==> cmd is Hint
            &&& t == "clear"@ <==> cmd is Clear
            &&& t == "quit"@ <==> cmd is Quit
            &&& t == "help"@ <==> cmd is Help
            &&& cmd matches ShellCommand::Unknown(u) ==> u@ == t
        }),
{
    let t = trimmed(input);
    proof {
        reveal_strlit("hint");
        reveal_strlit("clear");
        reveal_strlit("quit");
        reveal_strlit("help");
    }
    assert("hint"@[0] != "quit"@[0] && "hint"@[1] != "help"@[1] && "quit"@[0] != "help"@[0]);
    assert("clear"@.len() != "hint"@.len());
    if same_text(t, "hint") {
        ShellCommand::Hint
    } else if same_text(t, "clear") {
        ShellCommand::Clear
    } else if same_text(t, "quit") {
        ShellCommand::Quit
    } else if same_text(t, "help") {
        ShellCommand::Help
    } else {
        ShellCommand::Unknown(String::from_str(t))
    }
}

} // verus!
