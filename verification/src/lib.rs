//! The decision logic of a voice-typing assistant, with its contracts: text
//! clean-up and prompts for the language model, streamed replies, audio
//! buffering and framing, speech segmentation, the model cache and the
//! choice between pasting and typing.

pub mod text;
pub mod postprocess;
pub mod prompt;
pub mod sensevoice;
pub mod vad;
pub mod llm;
pub mod stt;
pub mod model;
pub mod output;
