# moonlit_plugins

The decision logic of the Moonlit first-party plugins (`docker`, `dotnet`,
`git`, `github`, `gitlab`, `moonlit`, `nodejs`), written in Verus and proved
against its contracts: the command lines each step runs, how their output is
read, the messages of every failure, and the state carried between steps.

- `src/` — the verified library, one module per plugin, plus the pieces they
  share: `text` (strings as character sequences), `paths`, `strmap` (an
  ordered string map), `rx` (the `regex` crate behind named results),
  `forge` (what the GitHub and GitLab clients share) and `recency`
  (newest-first ordering).
- `tests/` — scenario tests of the library on concrete values.
- `app/` — the plugins as the host loads them: configuration parsing,
  processes, HTTP, files, and outputs, calling the library for every
  decision.
