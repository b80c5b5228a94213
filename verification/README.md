# dombuilder

A small HTTP instance server. The library (`src/`) holds its logic, verified
with Verus:

- `text` – character-level splitting, trimming, decimal notation and number
  parsing, with the spec functions that state them;
- `strmap`, `headers` – maps keyed by strings (each key once);
- `request` – parsing a raw request, reading `Content-Length` from the head
  lines, reassembling a request, and the laws that tie these together;
- `response` – status messages and the rendering of a response;
- `server` – the registry of running instances (distinct ports, the highest
  free port first), their tokens, and the answer an instance gives;
- `cli` – the command line and its help texts;
- `api`, `lua` – the routes of an instance's API and the values its Lua
  scripts see.

`app/` is the program around it: arguments, sockets, threads, the tokio
runtime, the Lua interpreter and the HTTP client.
