# fileio_etw

Tools that study which Windows kernel trace flags (EnableFlags) and PERFINFO
group masks enable which FileIo and FltIo events, and what TDH can say about
them.

- `src/` is the verified library (Verus): flag and group-mask arithmetic, the
  FileIo event registry and event keys, the flag-combination search and its
  reports, the matching of events between concurrent sessions, fingerprints of
  FltIoCompletion events, the cumulative counts of the trace test, the TDH
  result and schema texts, fabricated `EVENT_RECORD` bytes, GUID reading and
  formatting, and the rules of the provider and event declarations. Every
  public function states its result in its contract; the `law_*` proof
  functions state what holds across functions.
- `tests/` runs the library on concrete values.
- `app/` is the command-line program around it: it starts the trace sessions,
  triggers file-system work, calls TDH, reads and writes result files, and
  computes the floating-point scores.
