# bifrost

The decision core of an IM gateway that drives external command-line agents,
written in Verus. Every function of the library states what it returns or changes,
and the statement is proved.

- `src/` is the library. It builds the command lines of the agents
  (`command_spec`), reads their output (`progress`), reports their runs (`runs`,
  `runtime`, `metadata`), keeps the configuration and the sessions of the gateway
  (`gateway_config`, `model_config`, `models`, `session_state`, `local_sessions`),
  talks to Feishu in plain values (`feishu`, `card_action`, `feishu_api`,
  `feishu_requests`, `feishu_tokens`, `feishu_connection`) and resolves the rules of
  the proxy (`resolver`). `text`, `map`, `sort`, `json` and `paths` hold what the
  others are built from.
- Paths are texts. The functions on them (`paths`) take the style of the system that
  they are meant for: slashes below one root, or drives and shares with slashes and
  backslashes. `app/` hands in the style of the system that it runs on.
- `tests/` runs the library.
- `app/` is ordinary Rust around it: files, processes, HTTP and the long connection.

Calls into other crates stand behind small functions marked
`#[verifier::external_body]`. Their contracts are believed, not proved; the comment
above each names the function that it calls and says what is claimed of it.
