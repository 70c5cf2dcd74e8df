//! Control logic of a multi-track live looper: recording state machines,
//! circular recording buffers, parameter tables, scenes, LFO mappings, MIDI
//! mapping, a slice sequencer, and the saved form of a project.
pub mod common;
pub mod recording_state;
pub mod float_bits;
pub mod parameters;
pub mod parameters_map;
pub mod scene_state;
pub mod lfo;
pub mod sample_buffer;
pub mod scratch_pad;
pub mod looper_handle;
pub mod sequencer;
pub mod midi_map;
pub mod midi_store;
pub mod multi_track;
pub mod multi_track_handle;
pub mod project;
pub mod saved_project;
