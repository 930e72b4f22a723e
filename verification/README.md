# sparrow

Audio visualiser for DMX lights.

Sound from an audio input is passed on to an output with a short delay, its
loudest frequency is found, and a colour of the chosen gradient is sent to the
lights. A web interface at `localhost:4181` switches devices, plays and pauses,
and edits gradients.

```
Usage: sparrow [OPTIONS]

Options:
      --log-level <LOG_LEVEL>      [default: INFO] [possible values: CRITICAL, ERROR, WARN, INFO, DEBUG, TRACE]
  -b, --buffer-size <BUFFER_SIZE>  [default: xl] [possible values: xs, s, m, l, xl]
  -p, --min-period <MIN_PERIOD>    [default: 250]
  -h, --help                       Print help
  -V, --version                    Print version
```

## Layout

- `src/` is the library, written and proved in Verus. It decides; it does no
  input or output and no floating point arithmetic.
  - `number`, `text`, `error`: numbers as bit patterns, names and their order,
    what can go wrong.
  - `engine::colour`, `engine::gradient`, `engine::gradients`: colours, their
    gradients, and the named gradients.
  - `engine::delay`, `engine::audio`: the delay line between the streams, the
    list of devices, the analysis window.
  - `engine::dmx`: serial ports, DMX frames, the sending loop.
  - `engine::protocol`, `engine::daemon`: commands, and the state machine that
    serves them.
  - `ui::routes`, `ui::session`, `ui::logs`: requests, the conversation behind
    each of them, the log of failures.
- `app/` is the program around it: the command line, audio and serial devices,
  the web server, the spectrum and the mixing of colours.
- `tests/` runs the library.

Each module states what its functions do over a model of its data, and what
holds of them together in public proof functions named `lemma_..`.
