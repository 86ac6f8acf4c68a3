# machina_monitor

The Machina Monitor Protocol (MMP), a restricted subset of QMP: a JSON line
protocol in which the server greets each connection, requires
`qmp_capabilities` first, and answers each `{"execute": ..}` request with
`{"return": ..}` or `{"error": {"class": .., "desc": ..}}`.

- `src/json.rs`: the JSON trees the protocol builds, and their model.
- `src/wire.rs`: the calls into `serde_json` (printing trees, reading requests).
- `src/version.rs`: decoding the package version into its (major, minor, micro) triple.
- `src/mmp.rs`: the greeting, the commands and their answers.
- `src/session.rs`: what one connection does with each line.
- `app/`: the TCP server that drives the above and calls the emulator's service.
