# omp_harness

The decisions of a bridge that drives one OMP agent process per conversation thread, written in Rust
and proved with Verus.

- `src/` is the library. `turn` and `run` take a turn from its prompt to its settled end, `setup` and
  `session` bring the runtime into the state of the restricted profile and wait for its responses,
  `profile` and `loading` hold that profile, `persistence` maps threads to sessions, `prompt` puts
  prompts together, and `server` serves the stream of commands. `laws` states what holds of a turn as
  a whole. `outside` holds every call into another crate, with what is relied on of it.
- `app/` does what the library decides: processes, files, the environment and the clock. What it needs
  of its surroundings (the process of the runtime, the decoder of its lines, the normalizer of its
  events and the client) it takes through traits.
- `tests/` runs the library on given values.

Paths are held as text with Unix rules, and times as nanoseconds of one monotonic clock.
