# arklog

A terminal viewer for HarmonyOS device logs, driven through `hdc`. It lists the
connected devices, streams HiLog records into a searchable session, and fetches
and splits fault logs.

The library under `src/` holds the logic, verified with Verus:

- `devices`, `fault_log`, `decode`, `command`: parsing `hdc` output into devices
  and fault-log entries, the command budgets and the wait step that stops a
  command at its deadline or output cap, and the fault-log export name.
- `controller`, `stream_intent`, `runtime_state`, `background_job`,
  `action_status`: the stream and discovery state machine, stepped by the
  program and never blocking.
- `text_input`, `query_history`, `input_view`, `keys`, `keymap`, `app_keys`:
  the single-line editor with undo and redo, the filter history and the key
  bindings.
- `log_geometry`, `viewport`, `presentation`, `query`, `execution_log`,
  `memory`: how records are measured, sliced, wrapped and windowed, what the
  panels say, how queries are planned, and the bounded diagnostic log.

`app/` is the program around it: the terminal loop, processes, files, the
clipboard and drawing.
