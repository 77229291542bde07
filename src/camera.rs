use vstd::prelude::*;

verus! {

/// A render target: a camera's view and the width of the image it is rendered into, in
/// pixels. The image's height follows from the view's aspect ratio.
#[derive(Clone, Copy, Debug, PartialEq)]
pub struct Render<V> {
    width: usize,
    pub view: V,
}

impl<V> Render<V> {
    pub closed spec fn spec_width(&self) -> usize {
        self.width
    }

    pub closed spec fn spec_view(&self) -> V {
        self.view
    }

    pub fn new(width: usize, view: V) -> (r: Self)
        ensures
            r.spec_width() == width,
            r.spec_view() == view,
    {
        Render { width, view }
    }

    pub fn width(&self) -> (r: usize)
        ensures
            r == self.spec_width(),
    {
        self.width
    }
}

} // verus!
