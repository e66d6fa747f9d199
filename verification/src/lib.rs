//! A polyphonic sine synthesiser driven by MIDI note events.
//!
//! Every quantity the engine decides on is an integer or a fraction of
//! integers: which voices sound, how far each one's clock has run, and the
//! level of its envelope. Turning those into floating-point samples is left
//! to the caller.
//!
//! - [`pitch`], [`gain`], [`envelope`]: tuning, velocity curve and envelope.
//! - [`voice`]: one sounding note.
//! - [`model`]: the voices as a mathematical sequence.
//! - [`registry`]: the voices that sound, at most one for each key.
//! - [`midi`]: from the bytes of a MIDI message to a change of the voices.
//! - [`mixer`]: filling an output buffer frame by frame.
//! - [`laws`]: what holds of the voices over time.

pub mod ratio;
pub mod gain;
pub mod pitch;
pub mod envelope;
pub mod voice;
pub mod model;
pub mod registry;
pub mod midi;
pub mod mixer;
pub mod laws;
