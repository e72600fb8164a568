# openHC

The logic of the openHC project, verified with Verus: the flasher that puts openHC
on Control4 controllers, the IO daemon that drives their relays, contacts, infrared
and serial ports, the telemetry daemon, and the dashboards.

- `src/` is the library. Every function states what it does in `requires` and
  `ensures`, and Verus proves it. Functions named `law_…` state what holds of
  several of them together.
  - `flasher`, `engine`, `transport`, `cli`, `wizard`: finding a controller, saying
    what it is, and installing on it over the network, a serial console or TFTP.
  - `iod`: the IO daemon's board model, commands, state and event stream, MQTT
    server and bridge, infrared codes, and the microcontroller's wire format.
  - `sysmond`, `webd`, `ohc_webd`, `wifi`: telemetry, the dashboards, the proxy in
    front of the daemons, and joining a wireless network.
  - `json`, `text`, `textmap`, `num`, `env`: what all of them are built on.
- `app/` is the program around it: sockets, files, threads, processes and the
  window. Its first argument says which part runs.
- `tests/` runs the library from outside, with the outside crates linked.

Outside calls the logic cannot do without (the zip, DHCP and MQTT codecs, text
repair and quoting) stand behind small trusted functions whose contracts say what
is taken on faith.
