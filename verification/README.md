# par6d

The runtime daemon of a six-axis robot arm, and its self-calibration tool.

- `src/` is the library: every rule that decides what the arm does. It is written
  in Verus, and its contracts are proved. It does no I/O and holds no floating
  point: readings come in as integers, ordered keys or answers to questions, and
  state machines say which action comes next.
- `app/` runs those machines: the command line, the real-time and streaming
  threads, files, logging, and the numerical work on joint vectors.
- `tests/` runs the library on concrete values.

## The library

| Module | What it decides |
| --- | --- |
| `collision_world`, `gate`, `standoff` | which motion is refused near a keep-out shape, and where a refused one stops |
| `stream`, `housekeeping`, `bridge` | what becomes of a client's streaming commands, from admission to release |
| `adapters`, `execution_path` | how set-points are followed, and which paths are accepted |
| `daemon`, `options`, `kin`, `paths`, `teleport` | startup, shutdown, configuration and placing a simulated arm |
| `grant`, `diagnostics`, `bytes`, `logging` | what is shared or recorded, byte by byte and line by line |
| `calibrate` | identifying the payload: the poses, the sweeps, and what is concluded |
| `selfcal` | homing, tuning, limits, friction and gravity identification, and writing the results back |

A proof function whose name starts with `law_` states a property of the library as
a whole; its doc comment says it in words.
