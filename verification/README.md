# concord

The verified core of a terminal Discord client, written in Verus.

- `src/` is the library, verified by Verus. Every public function carries
  a `requires`/`ensures` contract: slash command parsing, application command
  invocations and their request bodies, the user settings protobuf encoding,
  message search parameters and date bounds, forum listings, voice state
  update decisions, send guards, the events history commands publish, link and file name rules, and the readers
  of the JSON objects Discord sends (over the `json::Json` model).
  Calls into `base64`, `chrono`, `image`, `reqwest` and `serde_json` sit
  behind small trusted wrappers whose contracts say what those crates do.
- `tests/` runs the library on concrete values.
- `app/` is the unverified shell: the HTTP requests, the media player and
  opener processes, file downloads, and the conversion of `serde_json`
  values into the library's JSON model.
