# android-computer-use-mcp

An Android execution harness for agents: emulator lifecycle, app control,
UI observation, semantic UI interaction, raw input and the Solar Lab
scenarios. The decisions of the harness are a library verified with Verus;
the device I/O around them is a small command-line program.

## Layout

- `src/` — the verified library (`android_computer_use_mcp`).
  - `ui`, `xml`: selectors, normalized accessibility nodes, and reading
    `uiautomator` dumps (parsed with `roxmltree`).
  - `verification`, `polling`, `actions`, `deadline`: deciding whether a tap
    or text entry took effect, and the step functions of the polling loops
    (the caller performs the device call and hands the result back).
  - `window_views`: fingerprints of `dump-visible-window-views` archives
    (read with `zip`).
  - `adb`, `commands`, `device`, `dumpsys`, `dialog`, `touch`: adb command
    lines and what adb prints, argument checks, system dialogs, touch frames.
  - `semantic`, `scenario`: Solar Lab semantic actions and scenario scripts.
  - `target`, `discovery`, `config`, `session`, `artifact`, `args`,
    `tool_surface`: target resolution, emulator discovery, settings, the
    hosted interactive session, artifact names and encodings (`sha2`,
    `chrono`, `base64`), tool arguments and the public tool surface.
  - `text`, `error`: character-sequence helpers and the error type.
- `tests/` — tests of the library on concrete values.
- `app/` — the command-line program: settings from the environment, adb
  processes with time limits, and the scenario runner with the UI captures
  it needs (dump, pull retries, system dialogs), which drive the library's
  step functions for these. The polling loops of the tool server (tap and
  text verification, stable-UI waits, element waits, scrolling) are not
  part of this program: their step functions stand in `src/` for a caller
  that serves the tools.

Each public function of `src/` states its result in its `ensures` clause:
for the poll-state methods this includes the state carried to the next
poll. Where a result comes from an outside crate, the contract speaks of
that crate's result through a named function. The laws that relate
several functions are public proof functions named `lemma_*`.
