# hearth_web

The web console and account pages of the Hearth identity server: what each
handler reads from a request, what it asks the engine for, what it answers and
what it writes to the audit log.

- `src/` is the library. Verus proves the contracts of its functions. The few
  functions of `codec` and `json` that call other crates, and `String::push`, are
  the exception: their contracts are believed. Implementations of a trait take
  the contract that the trait states.
  Handlers are split around the engine: `…_request` and `…_check` read and test a
  request, `…_query` and `…_actions` say what to ask for, and the function with the handler's own
  name turns the engine's answer into a reply and audit events.
  - `text`, `order`, `calendar`, `units`, `diff`, `query`: strings, sorting, dates,
    durations, line diffs and query strings.
  - `codec`, `json`: UUIDs, base64, percent-encoding, QR codes, JSON and YAML. The
    calls into other crates stand here, each behind a declared contract.
  - `web`: sessions, page chrome, replies and audit events.
  - `access`, `members`: roles, permissions, scopes and organization members.
  - The other modules hold the pages, one module for each section of the console.
- `tests/` runs the library on concrete values.
- `app/` is the HTTP layer: axum handlers, forms and the traits through which an
  engine and a renderer are plugged in.

Laws that relate several functions are public proof functions whose names start
with `law_`.
