use vstd::prelude::*;

use super::edge::Edge;
use super::units::{Alignment, FloatBits, ImageHandle, Vec2};

verus! {

/// What a widget renders.
#[derive(Debug, PartialEq)]
pub enum RenderCommand {
    Empty,
    /// Represents a node that has no renderable object but contributes to the layout.
    Layout,
    Clip,
    Quad,
    Text { content: String, alignment: Alignment, word_wrap: bool },
    Image { handle: ImageHandle },
    TextureAtlas { position: Vec2, size: Vec2, handle: ImageHandle },
    NinePatch { border: Edge<FloatBits>, handle: ImageHandle },
}

impl Clone for RenderCommand {
    /// An equal render command.
    fn clone(&self) -> (r: Self)
        ensures
            r == *self,
    {
        match self {
            RenderCommand::Empty => RenderCommand::Empty,
            RenderCommand::Layout => RenderCommand::Layout,
            RenderCommand::Clip => RenderCommand::Clip,
            RenderCommand::Quad => RenderCommand::Quad,
            RenderCommand::Text { content, alignment, word_wrap } => RenderCommand::Text {
                content: content.clone(),
                alignment: *alignment,
                word_wrap: *word_wrap,
            },
            RenderCommand::Image { handle } => RenderCommand::Image { handle: *handle },
            RenderCommand::TextureAtlas { position, size, handle } => RenderCommand::TextureAtlas {
                position: *position,
                size: *size,
                handle: *handle,
            },
            RenderCommand::NinePatch { border, handle } => RenderCommand::NinePatch { border: *border, handle: *handle },
        }
    }
}

impl Default for RenderCommand {
    fn default() -> (r: Self)
        ensures
            r == RenderCommand::Empty,
    {
        RenderCommand::Empty
    }
}

} // verus!
