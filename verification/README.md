# PING

PING is aimed at something and reports that thing's coordinate. A NEO-M9N
receiver says where the device stands, a BNO085 sensor hub which way it points,
and a TF03 LiDAR how far away the target is.

* `src/` is the verified core. It touches no hardware: bytes that arrived are
  handed in, and frames that are to leave are handed back.
  * `tf03`, `bno085` and `neo_m9n` are the three drivers: framing, parsing,
    resynchronisation, sequence numbers, and what to do next while a sensor is
    waited for.
  * `sighting` decides what a press of the button has to go on, `button` what
    counts as a press, and `tasks` and `demo` what each sensor's task does next.
* `tests/` runs the core on frames as they stand on the wire.
* `app/` is the program for the ESP32-S3 around it: the buses, the tasks, and
  the floating point geometry that turns a sighting into a coordinate.

What the core takes on trust of other code stands in `neo_m9n/ubx.rs` (the
`ublox` crate) and in one function each of `neo_m9n/fixed_str.rs` and
`neo_m9n/version.rs` (the standard library).
