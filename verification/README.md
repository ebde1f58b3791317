# noirlings

An interactive runner for Noir exercises. `src/` is the verified library
(Verus); `app/` is the command-line program around it.

- `src/exercise.rs` – exercises and their state: an exercise is pending while
  its source still holds the `I AM NOT DONE` marker; the lines around the
  marker are shown to the learner.
- `src/pattern.rs` – the marker pattern, matched with the `regex` crate.
- `src/text.rs` – line splitting, trimming and padding of text.
- `src/nargo.rs` – the `nargo` arguments for each check, and how its outcome is read.
- `src/verify.rs` – going through exercises in order, stopping at the first
  that does not pass.
- `src/course.rs` – choosing exercises by name or progress; the course list.
- `src/watch.rs` – watch mode: which edits matter, what to check again, and
  the commands typed by the learner.
- `src/messages.rs` – the texts shown while checking.
