# pls_reply

`pls` answers command-line questions with a language model, streams the answer
and copies it to the clipboard; `pls commit` writes a commit message for the
staged changes.

`src/` is the verified library:

- `cli` — the command-line grammar and its parser, with the laws that flags are
  global and that the two profile (and the two statistics) formats exclude each other;
- `profile` — the latency profile as a state machine over clock readings
  (signed nanoseconds from the start instant), with the laws that, when each reading
  is no earlier than the phase it follows, the phases partition the time from
  the start to the report; that output time overlaps them; that a report holds
  only the profile's own phase names and those it was told to enter; and how a
  failure or an empty stream shows in the report. That successive readings of
  the clock never go backwards is what `Instant` documents, not what is proved;
- `query` — the query taken from standard input;
- `commit` — the `git diff` invocation and the prompt built from its output;
- `config` — model settings, defaults and the configuration file's location;
- `llm` — adapter and endpoint selection, the system message and the streamed answer;
- `session` — the decisions of one run; `clipboard` — the clipboard programs;
- `text` — trimming, case, decimal numbers and substitution over characters.

`app/` is the program around it: argument and file input, the configuration
file's parsing, the streaming request, the clipboard process and everything
printed with floating-point numbers.
