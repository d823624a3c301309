//! The preview-mode state machine: which geometry overlay is shown for the
//! image under the cursor, plus the independent UI toggles.

use vstd::prelude::*;
use crate::geometry::Geometry;

verus! {

/// Which geometry overlay is currently shown.  A flat selector: the UI may
/// move from any variant to any other directly.
#[derive(Clone, Copy, Debug, PartialEq, Eq)]
pub enum PreviewMode {
    /// Show the unmodified source crop.
    Source,
    Default,
    Start,
    Center,
    End,
    /// The user is editing the geometry by hand.
    Manual,
    /// No overlay.
    NoOverlay,
    /// A transient hover preview; holds the last mouseover geometry, or
    /// nothing when the pointer is not over a candidate.
    Candidate(Option<Geometry>),
}

/// The UI toggles and the preview mode, reset whenever the cursor moves to
/// a different image so that overlays never leak across images.
#[derive(Clone, Copy, Debug, PartialEq, Eq)]
pub struct UiState {
    pub show_filelist: bool,
    pub show_faces: bool,
    pub preview_mode: PreviewMode,
}

impl UiState {
    /// Returns the whole state to its initial value, whatever the prior
    /// state was: both toggles off and the source crop shown.
    pub fn reset(&mut self)
        ensures
            final(self).show_filelist == false,
            final(self).show_faces == false,
            final(self).preview_mode == PreviewMode::Source,
    {
        self.show_filelist = false;
        self.show_faces = false;
        self.preview_mode = PreviewMode::Source;
    }
}

impl Default for UiState {
    /// The initial state equals the reset state.
    fn default() -> (r: Self)
        ensures
            r.show_filelist == false,
            r.show_faces == false,
            r.preview_mode == PreviewMode::Source,
    {
        UiState { show_filelist: false, show_faces: false, preview_mode: PreviewMode::Source }
    }
}

} // verus!
