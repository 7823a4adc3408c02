//! Render backends convert layout IR to a concrete output format.
use vstd::prelude::*;

use crate::ir::Fragment;

verus! {

/// Converts layout IR to a concrete output format.
pub trait RenderBackend {
    /// Concrete backend output, such as an SVG string or display list.
    type Output;

    /// Error type returned when rendering fails.
    type Error;

    /// Renders a layout fragment and returns the backend-specific output.
    fn render_fragment(&self, fragment: &Fragment) -> Result<Self::Output, Self::Error>;
}

} // verus!
