# looper_processor

The control logic of a multi-track live looper, written in Verus and proved
against its contracts.

- `src/` is the verified library: the looper state machines and their
  circular scratch pads (`looper_handle`, `recording_state`, `scratch_pad`,
  `sample_buffer`), the parameter tables, scenes and LFO mappings of each
  track (`parameters`, `parameters_map`, `scene_state`, `lfo`,
  `multi_track`, `multi_track_handle`), MIDI mappings and the control-change
  store (`midi_map`, `midi_store`), the slice sequencer (`sequencer`), and
  the saved form of a project (`project`, `saved_project`), and the
  comparison of parameter values within `f32::EPSILON` on their bit
  patterns (`float_bits`).
- `tests/` exercises the library on concrete values.
- `app/` is the host program: sample mixing, quantization and tempo
  estimation in floating point, the events bus, and reading and writing
  project files.

Float values (parameter values, the scene slider, LFO amounts) are held in
the library by their `f32` bit patterns and computed on in `app/`. The one
float operation the library does itself, whether two parameter values are
within `f32::EPSILON` of each other, is done on integers: a finite `f32` is
counted in units of `2^-149`, and the rounding of the difference is stated
exactly.
