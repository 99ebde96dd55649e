# solar

An INDI-driven desktop suite for solar and planetary imaging: camera and mount control, SER video
recording, and guiding derived from the main video stream itself.

The library under `src/` holds the rules and algorithms of the suite that work on whole numbers,
bytes and text, written in Verus: what each function does stands in its contract, and the properties that span functions stand beside them as
public proof functions named `law_…`.

| Module | What it holds |
| --- | --- |
| `bus` | commands, shared state, and the bus between GUI and worker |
| `frame`, `focus` | decoded frames, display images, histogram, sharpness |
| `recorder` | SER files: header, frames, timestamp trailer |
| `guiding` | target detection, calibration, corrections, the control loop's turns |
| `indi` | device discovery, camera and mount operations as property changes |
| `worker` | command planning, replies and outcomes, the decode step, recording runs |
| `app` | what each control does, region selection, control panel, repaint |
| `ephemeris` | the bodies that the mount can be sent to |
| `scalar`, `text`, `bytes` | numbers by bit pattern, text, little-endian integers |

The library does no floating-point arithmetic. A `Scalar` is a number by its IEEE 754 bit pattern:
the library compares, bounds and hands on scalars, and the program computes them.

`app/` is the program around it: the window, the INDI connections (control, and a second one for
video), the threads and timers, files, and floating-point formulas.

## Running

- `SOLAR_AUTOCONNECT=1` connects and starts streaming on launch.
- `SOLAR_SCREENSHOT=path.png` connects, streams, saves a screenshot, then exits.
- `RUST_LOG` and `SOLAR_FILE_LOG` set what goes to stdout and to the log file in `SOLAR_LOG_DIR`.

`wcs` is pinned in `Cargo.toml`: a crate below `indi` builds only against that version.
