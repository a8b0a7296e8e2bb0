# thunder_agent

The logic of an autonomous tool-using agent, verified with Verus: the
conversation context and its token accounting, pruning and compaction of the
context, the onion of tool-call guards (permissions, workspace jail, resource
limits, atomic writes), the built-in tools' own logic (line windows, search
and listing reports), streaming of model output, the tools' definitions as the model sees them,
the daemon's task decisions and its traces on disk, and the terminal
interface's state (slash commands, prompt editing, pickers, scrolling, the
record of the turn in progress, and the text of its panes).

Layout:

- `src/` — the verified library. Every public function states what it
  returns in `ensures`; laws that relate several functions are public
  `proof fn`s named `lemma_*`. Calls into `regex`, `serde_json` and `globset`
  go through small trusted wrappers whose contracts are stated next to them.
- `tests/` — tests of the library on concrete values.
- `app/` — the host side that Verus does not see: reading files and
  directories, running shell commands, turning JSON into the library's types
  and the library's tool definitions into their wire form.
