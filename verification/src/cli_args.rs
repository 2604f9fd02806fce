//! What the program is asked to do.
use vstd::prelude::*;

verus! {

/// The arguments of the program.
#[derive(Debug)]
pub struct Args {
    /// Path to the audio file to be played
    pub file_path: String,
    /// Name of the audio source node to use as the reference "microphone". If not specified, the
    /// default audio source node will be used.
    pub audio_source_name: Option<String>,
}

} // verus!
