# dayweave_api

The rules of a planning service: what becomes of items, habits, routines and of the
proposals to change them. The library in `src/` is written in Verus. Every function states
in its contract what it answers, for which inputs and with which errors, and Verus proves
it.

## Layout

- `src/proposals/`: proposals, where they are kept, and the change sets that they carry.
- `src/review/`: the review of change sets, their application and its undoing.
- `src/items/`: commands on items, the order of a batch of them and the search for it, what
  is stored and what devices are told.
- `src/habits/`: reports, pauses, decisions about missed occurrences, and what a planner
  is told of all that.
- `src/routines/`: occurrences of routines, their pages and what planning may rely on.
- `src/documents.rs`: the documents that routines and habits are told apart by.
- `src/idempotency.rs`, `src/outbox.rs`, `src/admission.rs`: requests that are answered
  once, messages that are delivered, and work that a provider is admitted to.
- `src/outside.rs`: everything that is taken from other crates, with what is relied on.
- `src/time.rs`, `src/hashing.rs`, `src/text.rs`, `src/json.rs`, `src/ids.rs`,
  `src/numbers.rs`, `src/sequences.rs`: the plain values that all of it is stated over.
- `app/`: the database, the clocks and the wire formats around the library. The rules for
  the content of items, completions and routines come from the crates that own them,
  through the traits in `app/rules.rs`. The tables of habits are left to the service that
  embeds this one: it reads and writes the rows that `src/habits/` takes and gives.
- `tests/`: the library from the outside.

## What the contracts speak of

Identifiers are `u128` values, instants are nanoseconds since the Unix epoch, and JSON
documents are values of `json::Json`. A function that decides something takes what was read
as plain values and gives what is to be written. Where an answer depends on rules that
other crates own, it takes what those rules say as an argument.

The laws that relate several functions are public proof functions. They stand beside the
functions that they are about.
