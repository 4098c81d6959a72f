# epoch

Conversion between epoch timestamps (seconds, milliseconds, microseconds,
nanoseconds) and human-readable dates, as a verified library with a thin
command-line program around it.

- `src/` is the library, verified with Verus. Its modules, from the bottom up:
  `text` (trimming and comparing strings), `unit` (timestamp units and their
  names, guessing a unit from a magnitude), `decimal` (reading and writing
  decimal integers), `datetime` (points in time in UTC and their integer
  timestamps), `outcome` (value, error or abort), `timestamp` (reading numeric
  timestamps), `tz` (time zone settings and fixed offsets), `render` (writing
  a point in a zone), `date` (reading date strings), `process` (converting one
  input in either direction) and `cli` (what a run prints for its inputs).
- Date arithmetic, time zone rules and formatting are chrono's and
  chrono-tz's; the library calls them through small trusted wrappers whose
  contracts name what they return.
- `tests/` runs the library on concrete inputs.
- `app/` is the program: argument parsing, reading standard input, printing.
