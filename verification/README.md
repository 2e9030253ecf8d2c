# email_tool

An MCP server over stdio that helps organise a Gmail mailbox with labels:
it lists, creates, applies and removes labels, searches messages, and samples
messages to report how often labels occur and co-occur.

- `src/` is the verified library (Verus): request-line framing and routing
  (`rpc`), the tool catalog and argument checks (`catalog`, `tools`), the Gmail
  REST requests (`gmail`), the OAuth sign-in decisions and redirect reading
  (`auth`, `redirect`), message sampling (`sampling`), label statistics and
  ranking (`analysis`, `rank`), search summaries (`search`), and string helpers
  (`text`).
- `app/` is the program around it: stdin/stdout, HTTP, the token file, the
  browser sign-in, and JSON encoding.
- `tests/` runs the library on concrete inputs.
