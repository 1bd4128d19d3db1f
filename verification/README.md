# Codex Keep Warm

The decisions behind a scheduler that keeps the quota windows of subscription
accounts warm, written in Rust and proved with Verus.

- `src/` is the library. Every function states what it returns or changes.
  - `window`, `history`, `time`, `plan`, `account`, `schedule`: quota windows, what
    was seen of them, the daily schedule, and what a warmup should start now.
  - `chart`, `panel`, `labels`: what is shown of an account.
  - `state`: the accounts on display and the operations that run on them.
  - `codex`, `flow`, `json`: the protocol of the Codex app server, and what is done
    with it step by step.
  - two modules for a provider with a command line tool of its own: how the tool is
    run, and what is made of its answers.
  - `storage`: where settings lie, how they are read back, and how they are
    replaced without ever being lost.
  - `startup`: starting with Windows.
  - `laws`: what holds of plans, ledgers and schedules taken together. Laws on one
    module stand in that module; all of them are called `law_...`.
  - `text`, `search`: texts and sequences.
- `app/` is the desktop program around the library: windows and charts, processes,
  files, the clock of this computer.
- `tests/` runs the library on concrete values.

What the library takes from other crates and from the standard library without
proof stands in functions marked `external_body`, one `assume_specification`, and
the names that their contracts use. Each says which function it calls and what is
claimed of it.

The refresh interval is 60 seconds unless it is changed. Settings lie in
`%LOCALAPPDATA%\CodexKeepWarm`, `~/Library/Application Support/CodexKeepWarm`, or
`$XDG_CONFIG_HOME/codex-keep-warm`; `CODEX_KEEP_WARM_HOME` names another directory.
