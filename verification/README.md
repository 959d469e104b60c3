# pulsar_node

The verified core of a Pulsar relay node, and the desktop application around it.

`src/` is a Verus library, verified by Verus. Its functions have contracts,
except those that only read a clock, whose readings nothing can predict:

- `pubkey` — which public keys clients may subscribe under and publish to.
- `subscribers` — the subscription table (public key → subscriber numbers),
  which also hands out a fresh number to each new socket or tunnel session.
- `peers` — the set of distinct peer keys counted by the statistics.
- `relay` — the publish/subscribe protocol: what each client message does,
  the per-second publish limit, and the laws that tie them together.
- `socket` — a client connected directly: connect, each message, disconnect.
- `tunnel` — the browser sessions multiplexed over the outbound tunnel, and
  the answers to the platform's storage requests.
- `stats` — traffic and uptime counters and the snapshot shown to the user.
- `storage` — what is computed on offline messages (challenge hashes, base64 forms).
- `config`, `uptime`, `text` — settings, addresses, status lines and the text
  formats behind them.
- `clock`, `codec` — the calls into the clocks, `base64` and `sha2`, with the
  contracts they are trusted for.

`app/` is the program: the Tauri window and tray, the WebSocket server and
tunnel client, the SQLite message store and the HTTP calls. It moves bytes and
calls the library for every decision.

`tests/` runs the library on concrete inputs.
