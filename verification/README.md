# mm3sim

The verified core of MM3Sim, a simulator for tuning the marble trigger of a
marble-machine snare drum and the instruments around it.

`src/` is the library, written in Verus and proved:

- `wheel` — the programming wheel's channel table (names, colours, targets,
  spawn jitter, marble kinds);
- `instrument` — hit channels, the (marble, instrument) order of a
  collision and the sound a hit plays;
- `power` — per-instrument trigger counts of one wheel revolution;
- `barrel` — the barrel step sequencer: default loop, pattern editing,
  step crossing and the marbles released for the crossed pegs;
- `runs` — the run history: run numbering, hit recording, summaries;
- `carousel` — the quarter-turn selector of the instrument carousel;
- `audio` — the noise generator of the percussion samples and the WAV
  container;
- `layers`, `state` — collision layers and small pieces of state.

`app/` is a command-line driver around the library: the floating-point
parts (impact and energy arithmetic, marble parameters, chute geometry,
spawn positions, hit statistics and sound synthesis), the continuous
transports of the wheel, barrel and carousel, and file output.  `tests/` exercises the library.
