# chat_wire

The wire layer of a Chat Completions client, with its behaviour stated in
contracts and proved by Verus.

- `src/` is the library: JSON values, conversation items, request bodies and
  headers, decoding of event streams, tool specifications, trace lines, and the
  decisions of the patch tool. What holds of all requests and all streams stands
  in `request_laws.rs`, `stream_laws.rs`, `reasoning_laws.rs` and `turn_laws.rs`,
  or beside the functions that it is about.
- `tests/` runs the library on concrete values.
- `app/` is the part that does I/O: HTTP over `reqwest`, the loop that polls a
  server's event stream, diagnostic switches, and the host of the patch tool.

Ids of streamed items are random; every contract that draws one holds for any
id of the right form, and `ChatStream::on_choice` takes ids as arguments.
