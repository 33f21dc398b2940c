# pasithea

Speech-driven capture of what a streamer's viewer says after a wake word.

- `src/` is the verified library (Verus):
  - `text` — character-level text search and comparison;
  - `recognizer` — the state machine that follows decoded speech: wake word,
    settling text, completion timer, end of utterance;
  - `silence` — chunk amplitude bounds and the detector of a pause in speech;
  - `denoise` — the framing of a recording for the noise suppressor;
  - `input_config` — the choice of the input stream configuration;
  - `model_files` — the choice of model and scorer files in a model directory.
- `app/` is the program around it: command line, audio devices, threads,
  the speech engine, and the floating-point signal processing.
