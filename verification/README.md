# flatcam

A verified library for the file formats and text programs of a PCB CAM
toolkit, with a small command-line front end.

* `src/` — the library, verified with Verus. Each module states what its
  functions return in `ensures` clauses over spec functions, and the laws
  that tie functions together are proof functions (`law_*`, and the
  round-trip proofs of `drill_round_trip`, `gerber_round_trip`,
  `gcode_round_trip` and `hpgl_round_trip`).
* `tests/` — tests that run the compiled library.
* `app/` — the command-line front end and what cannot be verified: file
  I/O, floating-point formatting and conversions, plane geometry on `geo`
  types (flash shapes, buffers, boolean operations, editors), and the
  floating-point laser beam model, fills and calibration patterns.

The library never computes with floating-point numbers: coordinates are
exact decimals or literal texts, and where a value has to be an `f64` the
caller hands over its bit pattern.
