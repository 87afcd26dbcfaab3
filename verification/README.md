# easy2read

Client library for CAEN RFID readers that speak the easy2read protocol,
verified with Verus.

- `src/protocol.rs`: message framing (header, attribute-value pairs,
  messages), their readers and writers, and the laws that relate them
  (what is written is read back; what is read is written back byte for byte).
- `src/constants.rs`: attribute types, command codes and enumerated values.
- `src/transport.rs`: the byte-channel trait a client talks through, and
  its model: the trace of what it wrote and read.
- `src/commands.rs`: the command client. Each command's contract speaks of
  the trace of the transport the client holds: the request bytes it hands to
  `write_all` (once, before any read), the reads it asks `read_exact` for,
  and how its result follows from the bytes those reads delivered, or which
  transport error it passes on; a request that cannot be built leaves the
  transport untouched.
- `src/header.rs`: a compact framing module with private fields, modelled by
  `protocol`'s specs.
- `app/lib.rs`: the serial-port transport and `connect`.
