# music_mic

A macOS desktop mixer that combines a microphone with one application's audio
and publishes the mix as a virtual microphone (BlackHole 2ch).

The crate is split in two:

- `src/` — the verified library (Verus). It holds the decisions and the sample
  bookkeeping of the pipeline, each with a contract:
  - `audio::devices` — which input and output devices are offered, whether the
    virtual microphone is present, and the sorted, de-duplicated list of
    applications whose audio can be captured;
  - `audio::text`, `audio::sorting` — character-level matching and the stable
    sort by lower-case name;
  - `audio::layout`, `audio::capture`, `audio::mic` — conversions of mono,
    interleaved and planar buffers into interleaved stereo, resampler carries;
  - `audio::ring`, `audio::mixer` — non-blocking transfers through the sample
    rings (each end keeps the ring's capacity, the history of samples
    published or taken through it, and how many slots are known to be free
    or filled, so that a push writes what fits and a pull takes what the ring
    reported) and the pull plan of the output callback, which pads with
    silence;
  - `audio::voice` — block and queue accounting of the voice-isolation stage,
    which holds back exactly one block;
  - `audio::engine` — the control thread's state machine and stream selection;
  - `audio::types` — pipeline format and shared meter state;
  - `ui` — preselection and start conditions of the main window.
- `app/` — the program: audio host and screen-capture plumbing, the float
  signal path (gain, soft clip, meters, denoiser, resampler), configuration
  files, threads and the user interface.
