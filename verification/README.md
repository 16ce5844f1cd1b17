# vehicle-sim

A diagnostic vehicle simulator: virtual ECUs that answer UDS requests over CAN (ISO-TP) and over
Ethernet (DoIP), the schedule of their answers, and the HTTP interface that drives them.

- `src/` is the library: its functions carry contracts that Verus proves.
  - `core_domain`: the vehicle model: ECUs, addressing, timing, user-defined answers, wiring.
  - `ecu`: a running ECU and the schedule of its answers.
  - `isotp`, `can`: the transport layers, bus load and fault confinement.
  - `doip`, `doip_server`: the DoIP messages, and the entity that answers them.
  - `bridge`, `slcan`: the simulation on a CAN bus, and the line to its adapter.
  - `pcap`: packet captures.
  - `simulation`: routing outcomes and the timeline several answers share.
  - `application`, `api`, `cli`, `clock`: plugins, the HTTP interface's decisions, the command line.
- `app/` is the program around it: sockets, serial lines, HTTP routing, JSON, waiting.
- `tests/` runs the library on concrete values.

What the library relies on without proof stands in a few places, each with a comment that names the
outside function: `text.rs` (`String::push`), `clock.rs` (the system clock), `api/input.rs`
(`char::is_whitespace`) and `api/traffic.rs` (the broadcast channel of `tokio`).

Times are integers: microseconds on a bus, milliseconds in a schedule. Bus load is counted in bits;
shares of the bus are divided where they are shown.
