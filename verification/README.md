# atomcode_harness

A harness for coding agents: turns, tools, questions, history, teams and front ends,
with the decisions of each stated as contracts and proved with Verus.

- `src/` is the library. Whatever waits, reads or writes is left to the caller: a turn
  (`agent_loop`), the pump of a driven agent (`handle`), a compaction (`strategy`) and a
  line-oriented session (`ui`) are state machines that are told what happened and say
  what to do next. Everything else is a function from values to values.
- `tests/` runs the library on concrete values.
- `app/` holds the loops around the state machines, the configuration rows as they are
  read, the store on disk and the terminals.

The mathematical model of each type is its deep view, next to the type. What holds of
the library as a whole stands in the proof functions whose names begin with `law_`.
