# Bifrost

A virtual LAN over TCP. Clients hold a TAP device each and send Ethernet frames
to a server, which attaches one TAP per client to a bridge per network. The
server decides who may join which network, hands out addresses and routes, and
has an admin socket, a prompt and a web interface.

The library is written in Verus: every decision is a function with a contract,
and the contracts are proved. The programs around it only carry the decisions
out.

## Layout

* `src/` — the library.
  * `frame`, `codec`, `admin` — the wire protocol: frames, their framing on a
    byte stream, and the requests of the admin sockets.
  * `addr`, `routes`, `device`, `events`, `config`, `migration` — addresses,
    derived routes, rows, events and configurations.
  * `hub` — the server's control plane. Each handler takes the state and an
    event, and returns the actions to carry out. `hub/model.rs` says what each
    handler does, `hub/soundness.rs` what all of them keep, `hub/laws.rs` what
    they promise together.
  * `session` — one client's TAP in one network, and how it dies.
  * `server` — connections, admin requests, the prompt, the web interface.
  * `client` — the controller, the connection that reconnects, the prompt.
  * `net` — what is decided about devices, and an in-memory platform.
  * `text`, `uuids`, `ids`, `seqs`, `staging`, `caps` — smaller things.
* `tests/` — tests of the library.
* `app/` — the programs `bifrost server` and `bifrost client`: sockets, files,
  devices and tasks.

## What is taken on trust

Calls into other crates and the few standard library functions without a
specification stand behind small functions whose contracts are believed:
parsing and printing of addresses (`addr`), drawing, parsing and printing of
identities (`uuids`), quoting of strings (`text`), byte buffers (`codec`) and
media types (`server/statics`). Their doc comments say what is claimed.
