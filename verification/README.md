# cgminer_rs

A Bitcoin mining controller whose decision logic is written in Verus and
proved against its contracts.

- `src/` — the verified library: configuration defaults, validation and
  command line overrides; the configuration checker; work and result queues
  with their distribution strategies; device, chain and core bookkeeping
  (identifier allocation, device-to-core mappings, ASIC chain frames and chip
  scans, the virtual device's proof-of-work search); the mining lifecycle;
  API authorisation, handlers and WebSocket subscriptions; alert rules and
  bookkeeping, metric histories and log formatting; the Stratum probe's
  requests and its reading of a pool's replies. Calls into `sha2`, `url`,
  `uuid`, `fastrand`, `serde_json`, `toml` and the system clock stand behind
  small trusted wrappers whose contracts are stated next to them.
- `tests/` — tests of the library on concrete values.
- `app/` — the program around it: command line parsing, reading and writing
  the TOML configuration, the configuration checker's and the Stratum probe's front ends (chosen by
  the name the program is run under), the mining
  loop's sleeping and floating point readings, and the display helpers whose
  rules are floating point.
