//! The geometry that a layout gives one item.

use crate::packed::{lemma_four_lanes, U32x4};
use vstd::prelude::*;

verus! {

/// Where an item stands and how large it is, in pixels: the mathematical
/// value of a `Transform`.
pub struct Placement {
    pub width: int,
    pub height: int,
    pub top: int,
    pub left: int,
}

/// The geometry of one item: width, height, top offset and left offset.
#[derive(Clone, Copy)]
pub struct Transform(U32x4);

impl View for Transform {
    type V = Placement;

    closed spec fn view(&self) -> Placement {
        Placement {
            width: self.0@[0] as int,
            height: self.0@[1] as int,
            top: self.0@[2] as int,
            left: self.0@[3] as int,
        }
    }
}

impl Transform {
    /// The transform of an item of `width` by `height` pixels that stands
    /// `top` pixels from the top and `left` pixels from the left.
    pub fn new(width: u32, height: u32, top: u32, left: u32) -> (transform: Transform)
        ensures
            transform@ == (Placement {
                width: width as int,
                height: height as int,
                top: top as int,
                left: left as int,
            }),
    {
        Transform(U32x4::new(width, height, top, left))
    }

    /// The width of the item.
    pub fn width(&self) -> (width: u32)
        ensures
            width == self@.width,
    {
        broadcast use lemma_four_lanes;

        self.0.get::<0>()
    }

    /// The height of the item.
    pub fn height(&self) -> (height: u32)
        ensures
            height == self@.height,
    {
        broadcast use lemma_four_lanes;

        self.0.get::<1>()
    }

    /// The distance of the item from the top of the container.
    pub fn top(&self) -> (top: u32)
        ensures
            top == self@.top,
    {
        broadcast use lemma_four_lanes;

        self.0.get::<2>()
    }

    /// The distance of the item from the left of the container.
    pub fn left(&self) -> (left: u32)
        ensures
            left == self@.left,
    {
        broadcast use lemma_four_lanes;

        self.0.get::<3>()
    }

    /// The four values as lanes: width, height, top, left.
    pub fn lanes(&self) -> (lanes: U32x4)
        ensures
            lanes@.len() == 4,
            lanes@[0] == self@.width,
            lanes@[1] == self@.height,
            lanes@[2] == self@.top,
            lanes@[3] == self@.left,
    {
        broadcast use lemma_four_lanes;

        self.0
    }
}

impl Default for Transform {
    fn default() -> (transform: Transform)
        ensures
            transform@ == (Placement { width: 0, height: 0, top: 0, left: 0 }),
    {
        Transform(U32x4::default())
    }
}

} // verus!
