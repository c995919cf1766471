//! What the icon render loop takes and gives: texts to render, and images.

use vstd::prelude::*;

verus! {

/// A render task containing the text to render.
pub type Task = String;

/// An intermediate representation of the icon image data.
#[derive(Debug)]
pub struct Data {
    /// Image pixels, as the RGBA byte sequences.
    pub pixels: Vec<u8>,
    /// Image width.
    pub width: u32,
    /// Image height.
    pub height: u32,
}

/// Parameters for the render loop.
pub struct Params<RenderTaskReceiver, RenderedDataSender> {
    /// The width of the icon.
    pub width: u32,
    /// The height of the icon.
    pub height: u32,
    /// Function to receive render tasks.
    pub render_task_receiver: RenderTaskReceiver,
    /// Function to send rendered image data.
    pub rendered_data_sender: RenderedDataSender,
}

} // verus!
