# calx

A command-line tool for Apple Calendar, written as a Verus library with a thin program
around it.

- `src/` is the verified library: natural-language and Japanese date parsing, date and
  time arithmetic over a day-number model, event filtering and ordering, free-slot search,
  argument validation, the undo history and template store, the plans of each command
  (what to ask the calendar store, what to print), table and iCalendar text. Every public
  function states in its contract what it returns; laws that relate several functions
  (sorting keeps every event, free slots never meet a busy event, a template reads back as
  it was saved, putting back the last undo record restores the history, and so on) are
  public proof functions named `law_*`.
- Calls into `chrono`, `unicode-width` and a few std string functions go through small
  trusted wrappers (in `src/time.rs`, `src/ics.rs`, `src/text.rs`, `src/events.rs` and
  `src/table.rs`), each with a doc comment that says what its contract claims.
- `app/` is ordinary Rust: the `clap` argument parser, the EventKit store (macOS only),
  state files and locking, JSON/YAML/CSV output and `main`.
- `tests/` holds the tests, which run the library with the real outside crates linked.
