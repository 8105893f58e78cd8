use vstd::prelude::*;

verus! {

/// Marks the camera that renders the user interface.
#[derive(Default, Debug, Clone, Copy)]
pub struct CameraUIKayak;

/// Marks a widget's state entity copied from its previous widget entity.
#[derive(Default)]
pub struct PreviousWidget;

/// The kind of quad the user interface renderer draws.
#[derive(Debug, Clone, Copy, PartialEq, Eq, Structural)]
pub enum UIQuadType {
    Quad,
    Text,
    TextSubpixel,
    Image,
    Clip,
    OpacityLayer,
    DrawOpacityLayer,
    Nothing,
}

/// The key that selects a specialization of the user interface render pipeline.
#[derive(Debug, Clone, Copy, PartialEq, Eq, Hash, Structural)]
pub struct UnifiedPipelineKey {
    pub msaa: u32,
    pub hdr: bool,
}

/// The offset of a view's uniform in the view uniform buffer.
#[derive(Debug)]
pub struct UIViewUniformOffset {
    pub offset: u32,
}

} // verus!
