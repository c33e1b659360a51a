# pocketbook-host

The PocketJS UI runtime on PocketBook e-readers, with its decisions verified in
Verus.

- `src/` is the library. It holds what the host decides, on plain values:
  - `geometry`: where a bundle's viewport lands on the panel, and how panel and
    render pixels map to each other;
  - `rect`: damage rects and the boxes around them;
  - `orientation`: device orientations and their firmware codes;
  - `input`: what keys, touches and lifecycle events mean;
  - `refresh`: when the e-ink panel is updated, and how;
  - `session`: the viewport for the way the device is held, and the loop that
    ticks, pauses, reboots, rotates or ends a session;
  - `config`: the baked configuration and the bundle's paths.
- `app/` is the program around it: threads, files, inkview, the guest runtime.
  It reports what happened and does what the library answers.
- `tests/` runs the library.

Every function of the library states what it returns; the properties that relate
several functions are public proof functions whose names begin with `law_`. The
library calls nothing outside the standard library, so nothing in it is taken on
trust beyond `vstd`.

Times are `u64` nanoseconds on one monotonic clock, which the program reads. The
button bits and the resting value of the analog stick belong to the guest
runtime and come in as a `PadSpec`.
