# wsproxy

A WebSocket proxy for TCP connections, with its decisions verified by Verus.

```
TCP Client <---> client <--WebSocket--> server <---> TCP Server
```

## Layout

- `src/` — the verified library: route tables and the choice of a target
  for a request path, the `matchit`-backed router with parameter
  substitution, configuration validation and address resolution, reload
  decisions, TLS material from PEM text and self-signed certificates, client
  connection targets, forwarding decisions, daemon command lines, restart
  backoff, the daemon registry and its lock. Calls into `matchit`,
  `rustls-pemfile`, `rcgen` and `tungstenite` go through small unverified
  functions whose assumed contracts are documented where they are declared.
- `app/` — the `wsproxy` program: command line, tokio runtime, sockets,
  TLS sessions, files, the configuration watcher and process control. It
  hands the library plain values and acts on what the library decides.
- `tests/` — tests of the library on concrete values.
