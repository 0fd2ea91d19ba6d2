# linux_teasing

A terminal greeter that judges a hardware clock kept in local time instead
of UTC, once per change: when `/etc/adjtime` says `LOCAL` and local time has
not been recorded yet, Senior Tux appears with a line of commentary; the mode
seen is then recorded, so the same setting is never judged twice.

- `src/` is the library, verified with Verus:
  - `adjtime`: reading the mode out of the adjtime text (third line, trimmed,
    upper-cased);
  - `detector`: the verdict, the state to record after a run, and the laws
    that tie them together;
  - `state`: the recorded state;
  - `renderer`: the picture and how it is drawn, as a list of draw commands;
  - `message`: the commentary line.
- `app/` is the program around it: reading the files and the clock, storing
  the state as JSON, and carrying out the drawing with `crossterm`.
- `tests/` exercise the library on concrete inputs.
