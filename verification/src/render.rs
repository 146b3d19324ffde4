//! What the game's render hooks decide: the frame rate, counted over a fixed
//! number of frames, and which material of an object shows a browser.
use vstd::prelude::*;
use crate::text::{occurs, str_contains};

verus! {

/// The frame rate is measured over this many frames.
pub const REFERENCE_FRAMES: u64 = 10;

/// Frames drawn since the count restarted, and the last rate measured.
#[derive(Debug, Clone, Copy, PartialEq, Eq, Structural)]
pub struct FrameCounter {
    pub frames: u64,
    pub last_fps: u64,
}

impl FrameCounter {
    /// Fewer frames counted than a measure takes.
    pub open spec fn wf(&self) -> bool {
        self.frames < REFERENCE_FRAMES
    }

    /// Nothing counted yet.
    pub fn new() -> (c: FrameCounter)
        ensures
            c.wf(),
            c == (FrameCounter { frames: 0, last_fps: 0 }),
    {
        FrameCounter { frames: 0, last_fps: 0 }
    }

    /// A frame was drawn, `elapsed_ms` milliseconds after the count restarted.
    /// Every tenth frame gives the rate over those frames (frames per
    /// second) and restarts the count; the caller restarts its clock then.
    pub fn calc_frames(&mut self, elapsed_ms: u64) -> (fps: Option<u64>)
        requires
            old(self).wf(),
            old(self).frames + 1 == REFERENCE_FRAMES ==> elapsed_ms > 0,
        ensures
            final(self).wf(),
            old(self).frames + 1 == REFERENCE_FRAMES ==> {
                &&& fps == Some((10000u64 / elapsed_ms) as u64)
                &&& *final(self) == (FrameCounter { frames: 0, last_fps: fps.unwrap() })
            },
            old(self).frames + 1 != REFERENCE_FRAMES ==> fps is None && *final(self) == (FrameCounter {
                frames: (old(self).frames + 1) as u64,
                ..*old(self)
            }),
    {
        self.frames = self.frames + 1;
        if self.frames == REFERENCE_FRAMES {
            let fps = (REFERENCE_FRAMES * 1000) / elapsed_ms;
            self.last_fps = fps;
            self.frames = 0;
            return Some(fps);
        }
        None
    }
}

/// What is done with a material of an object that shows a browser.
#[derive(Debug, Clone, Copy, PartialEq, Eq, Structural)]
pub enum MaterialStep {
    /// Not this material: look at the next.
    Skip,
    /// Make the browser's texture at this size (the raster's, scaled), then
    /// put it on this material.
    CreateThenReplace { width: usize, height: usize },
    /// Put the browser's texture on this material.
    Replace,
}

/// The size of the browser's texture for a raster of `width` by `height`
/// pixels, scaled.
pub open spec fn scaled(width: i32, height: i32, scale: i32) -> (usize, usize) {
    ((width * scale) as i32 as usize, (height * scale) as i32 as usize)
}

/// A material shows the browser when it has a texture whose name holds the
/// browser's texture name. The browser's texture is made on the first such
/// material with a raster, when it has none yet; once it has one, it goes on
/// that material.
pub open spec fn material_step_spec(
    texture_name: Option<Seq<char>>,
    wanted: Seq<char>,
    view_has_texture: bool,
    raster: Option<(i32, i32)>,
    scale: i32,
) -> MaterialStep {
    match texture_name {
        None => MaterialStep::Skip,
        Some(name) => if !occurs(name, wanted) {
            MaterialStep::Skip
        } else if view_has_texture {
            MaterialStep::Replace
        } else {
            match raster {
                Some((w, h)) => {
                    let (width, height) = scaled(w, h, scale);
                    MaterialStep::CreateThenReplace { width, height }
                },
                None => MaterialStep::Skip,
            }
        },
    }
}

/// Decides what to do with a material (`texture_name` is `None` when it has
/// no texture) before its object is drawn.
pub fn material_step(
    texture_name: Option<&str>,
    wanted: &str,
    view_has_texture: bool,
    raster: Option<(i32, i32)>,
    scale: i32,
) -> (m: MaterialStep)
    requires
        raster matches Some((w, h)) ==> i32::MIN <= w * scale <= i32::MAX && i32::MIN <= h * scale
            <= i32::MAX,
    ensures
        m == material_step_spec(
            match texture_name {
                Some(n) => Some(n@),
                None => None,
            },
            wanted@,
            view_has_texture,
            raster,
            scale,
        ),
{
    match texture_name {
        None => MaterialStep::Skip,
        Some(name) => {
            if !str_contains(name, wanted) {
                MaterialStep::Skip
            } else if view_has_texture {
                MaterialStep::Replace
            } else {
                match raster {
                    Some((w, h)) => {
                        let width = (w * scale) as usize;
                        let height = (h * scale) as usize;
                        MaterialStep::CreateThenReplace { width, height }
                    },
                    None => MaterialStep::Skip,
                }
            }
        },
    }
}

} // verus!
