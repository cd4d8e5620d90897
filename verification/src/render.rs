//! The drawing boundary: views record draw commands into a [`Frame`] command
//! buffer; the embedding program executes the recorded commands on a real
//! output surface and presents the result.

use vstd::prelude::*;

use crate::geom::Rectangle;

verus! {

/// An opaque RGB colour.
#[derive(Clone, Copy, Debug, PartialEq, Eq, Structural)]
pub struct Color {
    pub r: u8,
    pub g: u8,
    pub b: u8,
}

/// A handle to a decoded image owned by the embedding program's texture
/// store, together with its pixel dimensions. The sprite logic only ever
/// reads the dimensions; the pixels stay behind the identifier.
#[derive(Clone, Copy, Debug, PartialEq, Eq, Structural)]
pub struct TextureHandle {
    pub id: u64,
    pub w: i32,
    pub h: i32,
}

impl TextureHandle {
    /// Well-formedness: pixel dimensions are non-negative.
    pub open spec fn wf(self) -> bool {
        self.w >= 0 && self.h >= 0
    }
}

/// One recorded draw call, to be executed in order by the backend.
#[derive(Clone, Copy, Debug, PartialEq, Eq, Structural)]
pub enum DrawCmd {
    /// Fill the whole output surface with a colour.
    Clear { color: Color },
    /// Fill `dest` with a colour.
    Fill { color: Color, dest: Rectangle },
    /// Draw the `src` portion of texture `tex`, scaled to fill `dest`.
    Copy { tex: u64, src: Rectangle, dest: Rectangle },
}

/// One frame's draw commands, together with the pixel size of the output
/// surface they are aimed at. A view appends commands during its step; the
/// embedding program drains and executes them, then presents.
#[derive(Debug)]
pub struct Frame {
    out_w: i32,
    out_h: i32,
    cmds: Vec<DrawCmd>,
}

impl Frame {
    /// Output surface width in pixels.
    pub closed spec fn out_w(self) -> i32 {
        self.out_w
    }

    /// Output surface height in pixels.
    pub closed spec fn out_h(self) -> i32 {
        self.out_h
    }

    /// The commands recorded so far, oldest first.
    pub closed spec fn cmds(self) -> Seq<DrawCmd> {
        self.cmds@
    }

    /// Well-formedness: the output dimensions are non-negative.
    pub open spec fn wf(self) -> bool {
        self.out_w() >= 0 && self.out_h() >= 0
    }

    /// An empty command buffer for an output surface of the given size.
    pub fn new(out_w: i32, out_h: i32) -> (f: Frame)
        requires
            out_w >= 0,
            out_h >= 0,
        ensures
            f.wf(),
            f.out_w() == out_w,
            f.out_h() == out_h,
            f.cmds() == Seq::<DrawCmd>::empty(),
    {
        Frame { out_w, out_h, cmds: Vec::new() }
    }

    /// The output surface's dimensions in pixels.
    pub fn output_size(&self) -> (r: (i32, i32))
        ensures
            r.0 == self.out_w(),
            r.1 == self.out_h(),
    {
        (self.out_w, self.out_h)
    }

    /// Records a whole-surface clear.
    pub fn clear(&mut self, color: Color)
        ensures
            final(self).out_w() == old(self).out_w(),
            final(self).out_h() == old(self).out_h(),
            final(self).cmds() == old(self).cmds().push(DrawCmd::Clear { color }),
    {
        self.cmds.push(DrawCmd::Clear { color });
    }

    /// Records a filled rectangle.
    pub fn fill_rect(&mut self, color: Color, dest: Rectangle)
        ensures
            final(self).out_w() == old(self).out_w(),
            final(self).out_h() == old(self).out_h(),
            final(self).cmds() == old(self).cmds().push(DrawCmd::Fill { color, dest }),
    {
        self.cmds.push(DrawCmd::Fill { color, dest });
    }

    /// Records a textured copy, scaling `src` of texture `tex` to fill `dest`.
    pub fn copy(&mut self, tex: u64, src: Rectangle, dest: Rectangle)
        ensures
            final(self).out_w() == old(self).out_w(),
            final(self).out_h() == old(self).out_h(),
            final(self).cmds() == old(self).cmds().push(DrawCmd::Copy { tex, src, dest }),
    {
        self.cmds.push(DrawCmd::Copy { tex, src, dest });
    }

    /// Hands the recorded commands over for execution, leaving the buffer
    /// empty for the next frame.
    pub fn take_cmds(&mut self) -> (r: Vec<DrawCmd>)
        ensures
            final(self).out_w() == old(self).out_w(),
            final(self).out_h() == old(self).out_h(),
            final(self).cmds() == Seq::<DrawCmd>::empty(),
            r@ == old(self).cmds(),
    {
        let mut taken: Vec<DrawCmd> = Vec::new();
        core::mem::swap(&mut taken, &mut self.cmds);
        taken
    }
}

} // verus!
