//! Choosing exercises by name or progress, and listing the course.

use vstd::prelude::*;
use crate::exercise::Exercise;
use crate::text::{pad_right, padded, same_text};

verus! {

/// Why no exercise could be chosen.
#[derive(Clone, Copy, Debug, PartialEq, Eq, Structural)]
pub enum FindError {
    /// "next" was asked for, but every exercise is done.
    AllDone,
    /// No exercise has the name asked for.
    NotFound,
}

/// `i` is the first exercise named `name`.
pub open spec fn first_named(exercises: Seq<Exercise>, name: Seq<char>, i: int) -> bool {
    &&& 0 <= i < exercises.len()
    &&& exercises[i].name@ == name
    &&& forall|j: int| 0 <= j < i ==> #[trigger] exercises[j].name@ != name
}

/// `i` is the first exercise that is not done.
pub open spec fn first_pending(done: Seq<bool>, i: int) -> bool {
    &&& 0 <= i < done.len()
    &&& !done[i]
    &&& forall|j: int| 0 <= j < i ==> #[trigger] done[j]
}

/// How many of the flags are set.
pub open spec fn count_true(flags: Seq<bool>) -> nat
    decreases flags.len(),
{
    if flags.len() == 0 {
        0
    } else {
        count_true(flags.drop_last()) + if flags.last() { 1nat } else { 0nat }
    }
}

/// The first exercise named `name`, if any.
pub fn find_start(exercises: &Vec<Exercise>, name: &str) -> (res: Option<usize>)
    ensures
        res matches Some(i) ==> first_named(exercises@, name@, i as int),
        res is None ==> forall|j: int| 0 <= j < exercises@.len() ==> #[trigger] exercises@[j].name@ != name@,
{
    let mut i: usize = 0;
    while i < exercises.len()
        invariant
            i <= exercises@.len(),
            forall|j: int| 0 <= j < i ==> #[trigger] exercises@[j].name@ != name@,
        decreases exercises.len() - i,
    {
        if same_text(exercises[i].name.as_str(), name) {
            return Some(i);
        }
        i = i + 1;
    }
    None
}

/// The first exercise that is not done, if any.
pub fn find_pending(done: &Vec<bool>) -> (res: Option<usize>)
    ensures
        res matches Some(i) ==> first_pending(done@, i as int),
        res is None ==> forall|j: int| 0 <= j < done@.len() ==> #[trigger] done@[j],
{
    let mut i: usize = 0;
    while i < done.len()
        invariant
            i <= done@.len(),
            forall|j: int| 0 <= j < i ==> #[trigger] done@[j],
        decreases done.len() - i,
    {
        if !done[i] {
            return Some(i);
        }
        i = i + 1;
    }
    None
}

/// Whether `name` asks for the next exercise not done yet.
pub fn is_next(name: &str) -> (next: bool)
    ensures
        next == (name@ == "next"@),
{
    same_text(name, "next")
}

/// Chooses an exercise: by `name`, or, for the name "next", the first
/// exercise not done yet. `done[k]` tells whether exercise `k` is done.
pub fn find_exercise(name: &str, exercises: &Vec<Exercise>, done: &Vec<bool>) -> (res: Result<usize, FindError>)
    requires
        done.len() == exercises.len(),
    ensures
        name@ == "next"@ ==> match res {
            Ok(i) => first_pending(done@, i as int),
            Err(e) => e == FindError::AllDone && forall|j: int|
                0 <= j < done@.len() ==> #[trigger] done@[j],
        },
        name@ != "next"@ ==> match res {
            Ok(i) => first_named(exercises@, name@, i as int),
            Err(e) => e == FindError::NotFound && forall|j: int|
                0 <= j < exercises@.len() ==> #[trigger] exercises@[j].name@ != name@,
        },
{
    if is_next(name) {
        match find_pending(done) {
            Some(i) => Ok(i),
            None => Err(FindError::AllDone),
        }
    } else {
        match find_start(exercises, name) {
            Some(i) => Ok(i),
            None => Err(FindError::NotFound),
        }
    }
}

/// How many exercises are done.
pub fn count_done(done: &Vec<bool>) -> (n: usize)
    ensures
        n == count_true(done@),
{
    let mut n: usize = 0;
    let mut i: usize = 0;
    while i < done.len()
        invariant
            i <= done@.len(),
            n == count_true(done@.take(i as int)),
            n <= i,
        decreases done.len() - i,
    {
        assert(done@.take(i + 1).drop_last() == done@.take(i as int));
        if done[i] {
            n = n + 1;
        }
        i = i + 1;
    }
    assert(done@.take(done.len() as int) == done@);
    n
}

/// The status shown for an exercise in the course list.
pub open spec fn status_text(done: bool) -> Seq<char> {
    if done {
        "Done"@
    } else {
        "Pending"@
    }
}

/// "Done" or "Pending".
pub fn status_label(done: bool) -> (label: String)
    ensures
        label@ == status_text(done),
{
    proof {
        reveal_strlit("Done");
        reveal_strlit("Pending");
    }
    if done {
        String::from_str("Done")
    } else {
        String::from_str("Pending")
    }
}

/// A row of the course list: name, path and status in columns of 17, 46
/// and 7 characters, separated by tabs.
pub open spec fn row_text(name: Seq<char>, path: Seq<char>, status: Seq<char>) -> Seq<char> {
    padded(name, 17) + "\t"@ + padded(path, 46) + "\t"@ + padded(status, 7)
}

/// Lays out a row of the course list.
pub fn list_row(name: &str, path: &str, status: &str) -> (row: String)
    ensures
        row@ == row_text(name@, path@, status@),
{
    let row = pad_right(name, 17);
    let row = row.concat("\t");
    let p = pad_right(path, 46);
    let row = row.concat(p.as_str());
    let row = row.concat("\t");
    let s = pad_right(status, 7);
    row.concat(s.as_str())
}

/// The heading of the course list.
pub fn list_header() -> (row: String)
    ensures
        row@ == row_text("Name"@, "Path"@, "Status"@),
{
    list_row("Name", "Path", "Status")
}

/// The row of the course list for an exercise.
pub fn exercise_row(exercise: &Exercise, done: bool) -> (row: String)
    ensures
        row@ == row_text(exercise.name@, exercise.path@, status_text(done)),
{
    let status = status_label(done);
    list_row(exercise.name.as_str(), exercise.path.as_str(), status.as_str())
}

/// Adding a flag adds one to the count when it is set and nothing when it
/// is not; no flags count nothing.
pub proof fn lemma_count_push(flags: Seq<bool>, flag: bool)
    ensures
        count_true(Seq::<bool>::empty()) == 0,
        count_true(flags.push(flag)) == count_true(flags) + if flag { 1nat } else { 0nat },
{
    assert(flags.push(flag).drop_last() == flags);
}

/// The count is the number of set flags: the length of the flags kept
/// by filtering on being set.
pub proof fn lemma_count_is_number_set(flags: Seq<bool>)
    ensures
        count_true(flags) == flags.filter(|b: bool| b).len(),
    decreases flags.len(),
{
    reveal(Seq::filter);
    if flags.len() > 0 {
        lemma_count_is_number_set(flags.drop_last());
    }
}

/// No set flag counts nothing, and all flags set count them all.
pub proof fn lemma_count_extremes(flags: Seq<bool>)
    ensures
        (forall|k: int| 0 <= k < flags.len() ==> !#[trigger] flags[k]) ==> count_true(flags) == 0,
        (forall|k: int| 0 <= k < flags.len() ==> #[trigger] flags[k]) ==> count_true(flags) == flags.len(),
    decreases flags.len(),
{
    if flags.len() > 0 {
        lemma_count_extremes(flags.drop_last());
        let t = flags.drop_last();
        if forall|k: int| 0 <= k < flags.len() ==> !#[trigger] flags[k] {
            assert forall|k: int| 0 <= k < t.len() implies !#[trigger] t[k] by {
                assert(t[k] == flags[k]);
            }
            assert(!flags[flags.len() - 1]);
        }
        if forall|k: int| 0 <= k < flags.len() ==> #[trigger] flags[k] {
            assert forall|k: int| 0 <= k < t.len() implies #[trigger] t[k] by {
                assert(t[k] == flags[k]);
            }
            assert(flags[flags.len() - 1]);
        }
    }
}

/// The count of done exercises never exceeds the number of exercises.
pub proof fn lemma_count_bounded(flags: Seq<bool>)
    ensures
        count_true(flags) <= flags.len(),
    decreases flags.len(),
{
    if flags.len() > 0 {
        lemma_count_bounded(flags.drop_last());
    }
}

} // verus!
