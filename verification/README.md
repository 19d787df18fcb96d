# mindchat_core

The domain core of MindChat, a private XMPP messenger, written in Verus.
The functions in `src/` carry contracts that Verus proves, except the few
thin wrappers around outside calls (the clock, the secure random generator,
AES-GCM, base64, JID parsing, number and string formatting) and the
`XmppTransport` trait's contract on its implementations: those contracts are
believed, and each one's doc comment says what it claims.

## Layout

- `src/state.rs`, `src/model.rs`, `src/keyed.rs`, `src/rules.rs`, `src/text.rs` —
  the core state machine (accounts, roster, conversations, messages,
  reactions, events) and the validation rules it applies.
- `src/coordinator.rs`, `src/transport.rs` — the transport boundary: the
  requests and events exchanged with an XMPP transport, and the coordinator
  that connects, flushes the outbox and applies events.
- `src/session.rs`, `src/connect.rs`, `src/registration.rs`, `src/xmpp.rs` —
  what an XMPP session decides: stanza translation, the reconnect and
  watchdog decisions, connection candidates, worker bookkeeping, and the
  in-band registration exchange.
- `src/proxy.rs`, `src/addr.rs` — SOCKS5 and HTTP CONNECT messages and
  replies, and IP literal parsing.
- `src/persistence.rs`, `src/cipher.rs`, `src/store.rs` — the persisted
  envelope, what a restore keeps, and encryption at rest.
- `src/extension.rs`, `src/ffi.rs`, `src/caps.rs` — extension permissions and
  the values the platform binding exchanges.
- `src/laws.rs` — properties that span several operations.
- `app/` — the shell around the library: files on disk, proxy sockets, name
  resolution and the thread-safe handle.
