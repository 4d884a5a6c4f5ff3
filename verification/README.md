# ternary_lighthouse

Guidance and warning aids for fleet navigation, written in Verus.

- `src/signal.rs`: ternary directions and severity levels.
- `src/foghorn.rs`: foghorns, the warnings they sound, and sounding every active one.
- `src/pattern.rs`: coded light patterns (decoding, matching, similarity counts, checksum).
- `src/watch.rs`: watchkeepers over registered dangers and the alerts they raise.
- `src/shiplog.rs`: the ship's log, kept in chronological order.
- `src/guidance.rs`: lens focus test and beacon messages.
- `app/lib.rs`: beacons, signals, lenses and the lighthouse hub, whose strengths and
  magnifications are floating-point numbers, built on the verified library.
