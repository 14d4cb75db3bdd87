# mshwisper

A zero-configuration, end-to-end encrypted chat mesh for the local network,
with a terminal interface: nodes find each other by UDP broadcast, agree on
session keys with X25519, and exchange AES-256-GCM sealed messages, private
group traffic and files.

Layout:

- `src/` — the verified library: the shared state (peers, channels, groups,
  transfers, join requests), the mesh's decisions on commands and incoming
  messages, session framing and the key handshake, file chunking, nickname
  rules, and the interface model (line editor, key and mouse handling,
  command parsing, the content of every panel but the fixed help text, and
  the clickable regions of a frame).  Every function carries a contract
  checked by Verus.
- `tests/` — tests of the library on concrete values.
- `app/` — the program around it: sockets, timers, files, the terminal,
  JSON encoding of packets, and drawing with ratatui (including the help
  popup's fixed text).
