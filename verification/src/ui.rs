//! What the user interface does with its texture.

use vstd::prelude::*;

verus! {

/// The texture that the spectrogram is shown in.
#[derive(Debug, Clone, Copy, PartialEq, Eq, Structural)]
pub struct TextureState {
    pub loaded: bool,
}

/// What a frame of the user interface does before it shows the texture.
#[derive(Debug, Clone, Copy, PartialEq, Eq, Structural)]
pub struct Frame {
    /// Load the texture.
    pub load: bool,
    /// Set the texture to the image that was received.
    pub set: bool,
}

/// What a frame does, and the texture that it leaves: the texture is loaded unless it already was,
/// and set if an image was received.
pub open spec fn ui_step(state: TextureState, received: bool) -> (TextureState, Frame) {
    (TextureState { loaded: true }, Frame { load: !state.loaded, set: received })
}

impl TextureState {
    /// No texture is loaded yet.
    pub fn new() -> (state: Self)
        ensures
            state == (TextureState { loaded: false }),
    {
        TextureState { loaded: false }
    }

    /// Draws a frame. The texture is loaded only once, and set whenever an image was received.
    pub fn ui(&mut self, received: bool) -> (frame: Frame)
        ensures
            (*final(self), frame) == ui_step(*old(self), received),
    {
        let load = !self.loaded;
        self.loaded = true;
        Frame { load, set: received }
    }
}

/// The texture after frames that found an image received, or did not.
pub open spec fn texture_after(received: Seq<bool>) -> TextureState
    decreases received.len(),
{
    if received.len() == 0 {
        TextureState { loaded: false }
    } else {
        ui_step(texture_after(received.drop_last()), received.last()).0
    }
}

/// The frame at `index` of those.
pub open spec fn frame_at(received: Seq<bool>, index: int) -> Frame {
    ui_step(texture_after(received.take(index)), received[index]).1
}

/// The texture is loaded only once, by the first frame, and every frame that finds an image received
/// sets it.
pub proof fn law_texture_is_loaded_once(received: Seq<bool>, index: int)
    requires
        0 <= index < received.len(),
    ensures
        frame_at(received, index).load <==> index == 0,
        frame_at(received, index).set == received[index],
{
}


/// A frame loads the texture just if none is loaded, sets it just if an image was received, and
/// leaves it loaded.
pub proof fn law_frames_load_and_set(state: TextureState, received: bool)
    ensures
        ui_step(state, received).0.loaded,
        ui_step(state, received).1.load <==> !state.loaded,
        ui_step(state, received).1.set <==> received,
{
}

} // verus!
