//! A request for a layout pass, and its execution.

use crate::layout::Layout;
use crate::model::LayoutView;
use vstd::prelude::*;

verus! {

/// The kind of layout.
#[derive(Clone, Copy, Debug, PartialEq, Eq, Structural)]
pub enum MasonryType {
    Vertical,
    Horizontal,
    Grid,
}

/// The configuration of a layout pass.
#[derive(Clone, Copy, Debug)]
pub struct MasonryConfig {
    pub kind: MasonryType,
    pub thumbnail_size: u16,
    pub padding: u16,
}

impl MasonryConfig {
    pub const DEFAULT_THUMBNAIL_SIZE: u16 = 300;

    pub const DEFAULT_PADDING: u16 = 8;

    pub fn new(kind: MasonryType, thumbnail_size: u16, padding: u16) -> (config: MasonryConfig)
        ensures
            config.kind == kind,
            config.thumbnail_size == thumbnail_size,
            config.padding == padding,
    {
        MasonryConfig { kind, thumbnail_size, padding }
    }
}

/// A request for one layout pass: the width of the container and the
/// configuration to lay the items out with.
#[derive(Clone, Copy, Debug)]
pub struct Computation {
    pub width: u16,
    pub config: MasonryConfig,
}

impl Computation {
    pub fn new(width: u16, config: MasonryConfig) -> (computation: Computation)
        ensures
            computation.width == width,
            computation.config == config,
    {
        Computation { width, config }
    }
}

impl LayoutView {
    /// The store once the configuration of `computation` is set.
    pub open spec fn configured(self, computation: Computation) -> LayoutView {
        self.with_thumbnail_size(computation.config.thumbnail_size).with_padding(
            computation.config.padding,
        )
    }

    /// The store after `execute(computation, ..)`: the configuration is set,
    /// then the layout of the requested kind is computed.
    pub open spec fn executed(self, computation: Computation) -> LayoutView {
        let configured = self.configured(computation);
        match computation.config.kind {
            MasonryType::Vertical => configured.vertical(computation.width),
            MasonryType::Horizontal => configured.horizontal(computation.width),
            MasonryType::Grid => configured.grid(computation.width),
        }
    }

    /// The height that `execute(computation, ..)` returns.
    pub open spec fn executed_height(self, computation: Computation) -> int {
        let configured = self.configured(computation);
        match computation.config.kind {
            MasonryType::Vertical => configured.vertical_total_height(computation.width),
            MasonryType::Horizontal => configured.horizontal_total_height(computation.width),
            MasonryType::Grid => configured.grid_total_height(computation.width),
        }
    }
}

/// Serves a request: sets the thumbnail size and the padding, computes the
/// layout of the requested kind for the requested width, and returns the
/// height of the container.
pub fn execute(computation: Computation, layout: &mut Layout) -> (height: u32)
    requires
        old(layout).wf(),
    ensures
        final(layout).wf(),
        final(layout)@ == old(layout)@.executed(computation),
        height == old(layout)@.executed_height(computation),
{
    let width = computation.width;
    let config = computation.config;
    layout.set_thumbnail_size(config.thumbnail_size);
    layout.set_padding(config.padding);

    match config.kind {
        MasonryType::Vertical => layout.compute_vertical(width),
        MasonryType::Horizontal => layout.compute_horizontal(width),
        MasonryType::Grid => layout.compute_grid(width),
    }
}

} // verus!
