# mp5_usenet

A small Usenet (NNTP) service split into microservices: a gateway that speaks
the line protocol with news readers, and three back-end services (groups,
session state, article files) reached over framed JSON messages.

- `src/` is the library, verified with Verus: message types (`types`), the
  wire framing (`frame`), pending-call bookkeeping of a client
  (`client_state`), command recognition (`command`), reply text (`text`),
  the three services' request handling (`groups`, `sessions`, `articles`)
  and the gateway's state machine (`gateway`).
- `app/` is the program around it: argument handling, TCP connections,
  JSON, and the loops that run the services and the gateway.
- `tests/` runs the library on concrete values, and compares command
  recognition with the `regex` crate.
