# ersatztv

The core of a streaming channel, verified with Verus.

- `src/` is the library: playout schedules, the choice of streams and sources, the timing
  and the states of a channel session, WebVTT subtitles, watermark placement, and the
  arguments that ffmpeg is given. Every function has a contract; the laws of the library
  are public proof functions named `law_*`.
- `tests/` runs the library on concrete values.
- `app/` surrounds the library with what it does not hold: JSON files, processes, clocks,
  floating point, and the loop that runs a session. The parts of a channel that lie outside
  both are the traits in `app/surroundings.rs`.

Moments and spans are the library's own types, in nanoseconds. Percentages are carried as
the bits of a 32-bit float and rounded to pixels in `app/`. A subtitle parser asks its
caller what a text of seconds denotes, one question at a time.
