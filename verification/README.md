# ltbrfm-player

The core of a live radio receiver, verified with Verus.

A listener of a live stream should sit one burst behind the live edge, see the
title of what is being heard rather than of what has just been received, and be
able to move from one stream of the station to another without a gap. The
library holds the logic for that; contracts state what each function does, and
the `*_laws` modules (and the `law_` functions next to what they are about)
state what holds of the library as a whole.

- `src/` is the library. Everything in it is verified. Two functions are
  trusted: the lossy UTF-8 decoder of the standard library, and the JSON reader
  that finds the version in an answer of the release API.
- `tests/` runs the library on concrete values.
- `app/` is a terminal front around the library: network, decoder, resampler,
  threads and clocks, and the floating-point arithmetic on samples.

The library never blocks and never reads a clock. It decides; the front does
what it decides and reports back.
