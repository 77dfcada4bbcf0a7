# open_workspace

Opens a herdr workspace in an editor on the machine of a client.

- `src/` is the library, verified with Verus. `openers` renders argv templates and
  checks opener definitions, `cli` is the command `herdr open-workspace`, `client`
  builds the command that launches the editor, and `server` with `pending` finds the
  client that a request is meant for and keeps the requests that wait for an answer.
  The modules whose names end in `_laws` state what holds of these as a whole.
  `json` and `paths` hold the calls that are trusted rather than proved.
- `app/` is what surrounds the library: environment variables, processes, channels,
  clocks, logs and the JSON forms of its types.
- `tests/` runs the library on concrete values.
