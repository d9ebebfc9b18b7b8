# webcat

A modal web browser for terminals that speak the Kitty graphics protocol. A
headless Chromium renders the page; its frames are shown in the terminal, and
keys and the mouse drive it. Agents can read the console and the network log
through an MCP server, and control the page where that is allowed.

- `src/` is the library, verified with Verus: how terminal bytes become keys and
  clicks, what each key does in each mode, which escapes draw a frame, how frames
  are paced, what the observability buffers keep, how the configuration is put
  together, which tool calls are let through. It takes and gives plain values.
- `app/` is the program around it: the terminal, the browser, shared memory, the
  clock, the command line and the MCP server.
- `tests/` run the library on concrete values.

`src/session.rs` is the place to start: events go in, effects come out, and the
program carries them out.
