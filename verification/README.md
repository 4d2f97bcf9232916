# packet

The link between an STM32F3 Discovery board that works out which way it is
pointing and the web page that draws it: the wire format, the receiver that
finds packets in a stream joined at any point, the page's calibration-run
state machine, what the board reports about a run, and the board's LED ring
and button — all proved with Verus.

- `src/` — the verified library. Every `f32` that crosses the wire is held as
  its bit pattern, since the format only moves those bits.
- `tests/` — the scenarios, run against the compiled library.
- `app/` — the floating-point half (sensor fusion, the sphere fit, projection,
  the calibration view's arithmetic, the numbers in the status line), the
  page's DOM glue, and the per-tick loop that joins the fit to the library's
  decisions.
