# gqy_web

The verified core of the GQY web front end. `src/` holds the rules the
daemon's WebUI and IPC endpoints apply — which assets are served and how,
which prompt documents, configurations and secrets are accepted, which runs
may start in a session, what the event stream sends, how a turn ends, where a
finished background job reports, what a sandbox grants — each with a Verus
contract. `app/` holds some of the edges around them: reading and writing
files and JSON, and the loop that runs the agent actor's plans. The HTTP
router, the IPC server and the daemon itself are not part of this crate.
`tests/` runs the library on concrete values.
