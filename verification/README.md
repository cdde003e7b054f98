# brocode_core_logic

Verified pieces of the Brocode agent's core, written in Verus.

- `src/json.rs`: JSON values and objects, with a mathematical model (an
  object is a map from keys to values) and order-insensitive equality.
- `src/mcp_openai_file.rs`: which tool parameters a server declares as file
  uploads, and the rewriting of a tool's input schema so that the model is
  asked for a local file path in their place; with proofs that the rewriting
  touches only the named properties and that doing it twice equals doing it
  once.
- `src/home_dir.rs`: the decisions of locating the Brocode home directory
  (`BROCODE_HOME` or `~/.brocode`), one step per file-system answer.
- `src/brocode_thread.rs`: a thread's count of outstanding out-of-band
  elicitations and when the session must pause or resume, with laws over
  runs of such operations; and the steps of adding a message to a thread's
  history without starting a user turn.
- `src/text.rs`: character-level text helpers.

`app/` holds the unverified edge: the environment and file-system reads that
drive the home-directory lookup, and the conversions from `serde_json` and
`rmcp` values to the library's JSON values.
