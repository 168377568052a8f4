# health_routing

A verified library for two pieces of the hardware-health and secrets services:

- `events`: the records that hardware-health collectors emit (report sources, probes,
  classifications, health reports) and the outbound form of a health report, in which
  every alert is marked as coming from hardware health.
- `context` and `endpoint`: the endpoint a collector polls and the device behind it, with
  accessors for what is known of that device.
- `routing`: prefix normalization and the routed credential writer, which sends each
  credential path to the writer of its longest matching prefix, or to a default writer.
- `byte_order`: lexicographic order and prefix tests on UTF-8 bytes.

`app/` holds what the library does not: events that carry floating-point readings, the
hand-off of reports to the health-report service, and the asynchronous credential writer.
