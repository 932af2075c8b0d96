use vstd::prelude::*;
use crate::color::Color;

verus! {

pub const SCREEN_WIDTH: usize = 800;

pub const SCREEN_HEIGHT: usize = 600;

/// Depth of a cell that nothing has been written to since the last clear.
/// Fragment depths are `i32`, so every one of them is strictly nearer.
pub const DEPTH_INFINITY: i64 = 0x7fff_ffff_ffff_ffff;

/// A grid of packed colors and depths, cell `(x, y)` at index `y * width + x`.
/// Smaller depth is nearer.
pub struct Framebuffer {
    pub width: usize,
    pub height: usize,
    pub buffer: Vec<u32>,
    pub zbuffer: Vec<i64>,
    pub background_color: Color,
    pub current_color: Color,
}

/// Index of the cell `(x, y)` in a grid `width` cells wide.
pub open spec fn cell_index(width: int, x: int, y: int) -> int {
    y * width + x
}

/// `after` is `before` after a clear: same size and colors, every color cell
/// the packed background, every depth cell infinite.
pub open spec fn is_cleared(before: Framebuffer, after: Framebuffer) -> bool {
    &&& after.width == before.width
    &&& after.height == before.height
    &&& after.background_color == before.background_color
    &&& after.current_color == before.current_color
    &&& after.wf()
    &&& forall|i: int|
        0 <= i < after.buffer@.len() ==> after.buffer@[i] == before.background_color.hex()
    &&& forall|i: int| 0 <= i < after.zbuffer@.len() ==> after.zbuffer@[i] == DEPTH_INFINITY
}

/// `after` is `before` after the depth-gated write of the current color at
/// `(x, y)` with depth `depth`.
pub open spec fn is_point_written(
    before: Framebuffer,
    after: Framebuffer,
    x: int,
    y: int,
    depth: i32,
) -> bool {
    &&& after.width == before.width
    &&& after.height == before.height
    &&& after.background_color == before.background_color
    &&& after.current_color == before.current_color
    &&& if 0 <= x < before.width && 0 <= y < before.height {
        let i = cell_index(before.width as int, x, y);
        let old_depth = before.zbuffer@[i];
        &&& after.zbuffer@ == before.zbuffer@.update(
            i,
            if (depth as i64) < old_depth { depth as i64 } else { old_depth },
        )
        &&& after.buffer@ == if (depth as i64) < old_depth {
            before.buffer@.update(i, before.current_color.hex())
        } else {
            before.buffer@
        }
    } else {
        &&& after.zbuffer@ == before.zbuffer@
        &&& after.buffer@ == before.buffer@
    }
}

pub proof fn lemma_cell_in_grid(width: int, height: int, x: int, y: int)
    requires
        0 <= x < width,
        0 <= y < height,
    ensures
        0 <= cell_index(width, x, y) < width * height,
        0 <= y * width,
{
    assert(0 <= y * width && 0 <= y * width + x < width * height) by (nonlinear_arith)
        requires
            0 <= x < width,
            0 <= y < height,
    ;
}

/// Clearing twice leaves the same state as clearing once.
pub proof fn lemma_clear_twice(a: Framebuffer, b: Framebuffer, c: Framebuffer)
    requires
        is_cleared(a, b),
        is_cleared(b, c),
    ensures
        c.width == b.width,
        c.height == b.height,
        c.background_color == b.background_color,
        c.current_color == b.current_color,
        c.buffer@ == b.buffer@,
        c.zbuffer@ == b.zbuffer@,
{
    assert(c.buffer@ =~= b.buffer@);
    assert(c.zbuffer@ =~= b.zbuffer@);
}

impl Framebuffer {
    /// Both cell arrays hold `width * height` cells.
    pub open spec fn wf(&self) -> bool {
        &&& self.buffer@.len() == self.width * self.height
        &&& self.zbuffer@.len() == self.width * self.height
    }

    /// Every color cell 0, every depth cell infinite, background black,
    /// current color white.
    pub fn new(width: usize, height: usize) -> (fb: Framebuffer)
        requires
            width * height <= usize::MAX,
        ensures
            fb.wf(),
            fb.width == width,
            fb.height == height,
            forall|i: int| 0 <= i < fb.buffer@.len() ==> fb.buffer@[i] == 0,
            forall|i: int| 0 <= i < fb.zbuffer@.len() ==> fb.zbuffer@[i] == DEPTH_INFINITY,
            fb.background_color == (Color { r: 0, g: 0, b: 0 }),
            fb.current_color == (Color { r: 255, g: 255, b: 255 }),
    {
        let n: usize = width * height;
        let mut buffer: Vec<u32> = Vec::with_capacity(n);
        let mut zbuffer: Vec<i64> = Vec::with_capacity(n);
        let mut i: usize = 0;
        while i < n
            invariant
                i <= n,
                buffer@.len() == i,
                zbuffer@.len() == i,
                forall|j: int| 0 <= j < i ==> buffer@[j] == 0,
                forall|j: int| 0 <= j < i ==> zbuffer@[j] == DEPTH_INFINITY,
            decreases n - i,
        {
            buffer.push(0);
            zbuffer.push(DEPTH_INFINITY);
            i = i + 1;
        }
        Framebuffer {
            width,
            height,
            buffer,
            zbuffer,
            background_color: Color::black(),
            current_color: Color::new(255, 255, 255),
        }
    }

    /// Resets every color cell to the packed background and every depth cell
    /// to infinity.
    pub fn clear(&mut self)
        requires
            old(self).wf(),
        ensures
            is_cleared(*old(self), *final(self)),
    {
        let bg = self.background_color.to_hex();
        let n = self.buffer.len();
        let mut i: usize = 0;
        while i < n
            invariant
                i <= n,
                n == self.buffer@.len(),
                self.wf(),
                self.width == old(self).width,
                self.height == old(self).height,
                self.background_color == old(self).background_color,
                self.current_color == old(self).current_color,
                bg == self.background_color.hex(),
                forall|j: int| 0 <= j < i ==> self.buffer@[j] == bg,
                forall|j: int| 0 <= j < i ==> self.zbuffer@[j] == DEPTH_INFINITY,
            decreases n - i,
        {
            self.buffer.set(i, bg);
            self.zbuffer.set(i, DEPTH_INFINITY);
            i = i + 1;
        }
    }

    pub fn set_current_color(&mut self, color: Color)
        ensures
            *final(self) == (Framebuffer { current_color: color, ..*old(self) }),
    {
        self.current_color = color;
    }

    pub fn set_background_color(&mut self, color: Color)
        ensures
            *final(self) == (Framebuffer { background_color: color, ..*old(self) }),
    {
        self.background_color = color;
    }

    /// Depth-gated write: inside the grid and nearer than the stored depth,
    /// the cell takes the packed current color and the new depth; otherwise
    /// nothing changes.
    pub fn point(&mut self, x: usize, y: usize, depth: i32)
        requires
            old(self).wf(),
        ensures
            final(self).wf(),
            is_point_written(*old(self), *final(self), x as int, y as int, depth),
    {
        let n = self.buffer.len();
        if x < self.width && y < self.height {
            proof {
                assert(y * self.width <= (self.height - 1) * self.width) by (nonlinear_arith)
                    requires
                        y < self.height,
                ;
                lemma_cell_in_grid(self.width as int, self.height as int, x as int, y as int);
            }
            let index = y * self.width + x;
            if (depth as i64) < self.zbuffer[index] {
                let hex = self.current_color.to_hex();
                self.buffer.set(index, hex);
                self.zbuffer.set(index, depth as i64);
            } else {
                assert(self.zbuffer@ =~= self.zbuffer@.update(index as int, self.zbuffer@[index as int]));
            }
        }
    }
}

} // verus!
