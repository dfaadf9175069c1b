# rhost

A verified core for a command-line tool that drives the system OpenSSH client
for agents: one remote command per invocation, port forwards held by their own
OpenSSH masters, tmux-backed sessions, and the rules for file transfer over
scp and rsync. Every answer is a schema-v2 JSON document.

- `src/` is the library, verified with Verus: the values that cross a remote
  shell boundary (quoting, base64, UTF-8 cuts), the wrapper script and its
  completion marker, the streaming parser that keeps markers away from the
  human, the bounded captures, the session helper programs and their line
  protocol, the tunnel request guard and what each master answer means, the
  scp/rsync argument rules and rsync's change report, batch manifests and
  patch documents read from their JSON text, and every JSON document the tool
  prints.
- `app/` is the program around it: argument handling for `version`, `hosts`,
  `exec`, `connection`, `tunnel` and `session list`, the child-process loop,
  local files (tunnel records, the OpenSSH client config walk), random
  identifiers, signal handlers, and serde copies of the documents. The program
  does not offer the `fs` commands; the library holds their rules and
  documents.
- `tests/` runs the library on concrete values.
