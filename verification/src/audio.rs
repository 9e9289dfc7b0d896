//! The audio assets the surrounding application plays: the engine side owns
//! only which track is the background music, as its asset path.

use vstd::prelude::*;
use vstd::string::StringExecFns;

verus! {

/// The audio state: the asset path of the background music track. The
/// surrounding application resolves the path to a playable handle.
pub struct AudioState {
    pub background_handle: String,
}

/// The audio state with the standard background track.
pub fn load_audio() -> (s: AudioState)
    ensures
        s.background_handle@ == "background_music.wav"@,
{
    let mut background_handle = String::new();
    background_handle.append("background_music.wav");
    AudioState { background_handle }
}

} // verus!
