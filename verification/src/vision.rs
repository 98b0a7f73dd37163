//! The recognition side: where the board is in a screenshot, how a grid of
//! recognised labels becomes a board, and the filter that lets only stable
//! observations through.
use vstd::prelude::*;

pub mod crop;
pub mod observation;
pub mod stability;

verus! {

/// Width of the recogniser's input image, in pixels.
pub const IMAGE_WIDTH: usize = 640;
/// Height of the recogniser's input image, in pixels.
pub const IMAGE_HEIGHT: usize = 640;

/// Which recognition model is used.
#[derive(Debug, Clone, Copy, PartialEq, Eq, Structural)]
pub enum ModelKind {
    Large,
    Rotate,
}

impl Default for ModelKind {
    fn default() -> (k: Self)
        ensures
            k == ModelKind::Large,
    {
        ModelKind::Large
    }
}

/// Where a frame came from.
#[derive(Debug, Clone, PartialEq, Eq)]
pub enum FrameSource {
    Window { id: u32, title: String },
    ImageFile { path: String },
}

/// An image file used as input (for example to read an opening from a picture).
#[derive(Debug, Clone, PartialEq, Eq)]
pub struct ImageFile {
    path: String,
}

impl ImageFile {
    pub fn new(path: String) -> (f: Self)
        ensures
            f.spec_path() == path@,
    {
        ImageFile { path }
    }

    pub closed spec fn spec_path(&self) -> Seq<char> {
        self.path@
    }

    /// The file's path.
    pub fn path(&self) -> (p: &str)
        ensures
            p@ == self.spec_path(),
    {
        self.path.as_str()
    }

    /// The source description of frames read from this file.
    pub fn source(&self) -> (s: FrameSource)
        ensures
            s matches FrameSource::ImageFile { path } && path@ == self.spec_path(),
    {
        FrameSource::ImageFile { path: self.path.clone() }
    }
}

/// Minimal health check of the recognition side.
pub fn vision_healthcheck() -> (s: &'static str)
    ensures
        s@ == "xq-vision/ok"@,
{
    let _ = crate::core_version();
    "xq-vision/ok"
}

} // verus!
