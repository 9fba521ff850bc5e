# mongoscope

The logic of a MongoDB traffic inspector: a proxy sits between an
application and its server, every request it forwards becomes an entry in a
feed, and the feed can be filtered, grouped by database, collection and
client, explained, and queried by an MCP client.

`src/` is the library, verified with Verus:

- `text`, `types`, `bson`, `model`: text helpers, validated names and ids,
  ordered documents, and the captured request.
- `command`, `intercept`, `proxy`: what a wire request is, what the proxy
  keeps of it until its reply or its explain plan arrives, the request
  entries it builds, the bounded store they go to, and connection strings.
- `filter`, `feed`, `buckets`: the filter language and its chips, the feed
  of one connection (newest first, capped) and its latency histogram.
- `sidebar`, `sidebar_state`, `connections`, `inspector`, `compose`,
  `mcp_panel`, `theme`, `app_state`: the window's state and how each event
  changes it, with the action the window has to carry out.
- `mcp`: the answers of the MCP tools.
- `mock`, `mock_docs`: the demo source's session ids and the response
  documents it makes up.

`app/` is the program around it: the wire proxy, the MCP server over stdio
or HTTP, and the conversions from the wire and BSON types.  It has no
desktop window: the window's state machines (`app_state` and the sidebar,
feed, inspector and MCP panel states it drives) are here for a window to
call, and only the tests drive them.  The wire proxy comes from the
`mongod_proxy` crate, which is not part of `Cargo.toml`, so `app/` does not
build on its own yet.

`tests/` holds the tests.
