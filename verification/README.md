# amd

The verified core of amD, the amFOSS Discord daemon, written with Verus.

- `src/` is the library that Verus checks: log filter directives (`trace`,
  `commands::set_log_level`), settings read from the environment (`config`,
  `decimal`), the date text of a query (`date`), reaction roles and what a reaction event asks for
  (`reaction_roles`), and the GraphQL requests and answers (`graphql`, `json`).
- `app/` is the bot around it: the Discord client and its event loop, the
  HTTP calls to the backend, the log subscriber, and `serde` parsing.
- `tests/` runs the library on concrete values.
