# battery_control

A normalized model of batteries, BMSes and power stations, and the protocol
logic behind it, verified with Verus.

`src/` is the verified library:

- `types`, `capabilities`, `auth`, `error`: the shared vocabulary (standard
  reading and switch ids, units, commands, capability flags, the pairing
  flow states).
- `status`: turning consecutive snapshots into switch and alarm updates and
  folding updates back into a snapshot.
- `commands`: what each backend does with a command, and which capability
  gates it.
- `discovery`: probe plans for serial ports, scan and probe results as
  devices, merging, and resolving a user query to one device.
- `credentials`: hex-encoded credentials and the credentials file format.
- `pylontech_can`, `pylontech_cli`, `seplos`, `sok` (`ee`, `abc`): frame
  builders, CRCs and decoders of the device protocols; decoders return the raw
  integers the devices send.
- `link`: CAN / serial / BLE target strings, CAN framing and filtering, JK
  pack addresses.
- `cli`, `text`: command-line text logic and the character-level string
  operations everything above is specified with.

`app/` is the `battery` command line: sockets, files, device files, async
plumbing, and the floating-point part of the status model (scaling raw
integers to volts, amps and degrees, comparing readings, formatting numbers).
