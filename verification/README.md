# audiomirror

One captured audio source fanned out to many destinations, each kept on its
own clock.

- `src/` is the verified library: device catalog and naming, the command
  handling that edits the configuration, the supervisor's per-tick decisions
  (verdicts, retry schedule, buffer plan, roster of destinations), the
  capture-side fan-out and its order queue, the single-producer ring, render
  pacing, channel mapping, gain bounds, level retention, settings location
  and fallbacks. Each public function carries its contract; the laws that
  span several calls are public proof functions.
- `tests/` runs the library on concrete values.
- `app/` is the program around it: the audio host, sample conversion,
  resampling and drift correction (floating point), the supervisor thread,
  settings files, and the desktop shell.
