//! The picture being drawn: one colour and one depth for every pixel.

use vstd::prelude::*;

verus! {

/// The depth of a pixel that nothing has been drawn on: farther than
/// anything that can be drawn.
pub const FAR_DEPTH: i32 = i32::MAX;

/// A picture of `width` by `height` pixels, stored row by row.
pub struct Framebuffer {
    width: usize,
    height: usize,
    buffer: Vec<u32>,
    zbuffer: Vec<i32>,
    background_color: u32,
    current_color: u32,
}

/// What a framebuffer holds.
pub struct FramebufferView {
    pub width: nat,
    pub height: nat,
    /// The colour of each pixel, as `0xRRGGBB`, row by row.
    pub colors: Seq<u32>,
    /// The depth of what was drawn last on each pixel, row by row.
    pub depths: Seq<i32>,
    /// The colour that `clear` fills the picture with.
    pub background: u32,
    /// The colour that `point` draws with.
    pub current: u32,
}

impl FramebufferView {
    /// Whether there is one colour and one depth for every pixel.
    pub open spec fn wf(self) -> bool {
        &&& self.colors.len() == self.width * self.height
        &&& self.depths.len() == self.width * self.height
    }

    /// Whether `(x, y)` is a pixel of the picture.
    pub open spec fn contains(self, x: int, y: int) -> bool {
        0 <= x < self.width && 0 <= y < self.height
    }

    /// Where pixel `(x, y)` is stored.
    pub open spec fn index_of(self, x: int, y: int) -> int {
        y * self.width + x
    }

    /// The picture after `clear`: every pixel has the background colour
    /// and nothing drawn on it.
    pub open spec fn cleared(self) -> FramebufferView {
        FramebufferView {
            colors: Seq::new(self.colors.len(), |i: int| self.background),
            depths: Seq::new(self.depths.len(), |i: int| FAR_DEPTH),
            ..self
        }
    }

    /// Whether `point` draws on pixel `(x, y)` at depth `depth`: the pixel
    /// is part of the picture and what it shows lies strictly farther away.
    pub open spec fn accepts(self, x: int, y: int, depth: int) -> bool {
        self.contains(x, y) && depth < self.depths[self.index_of(x, y)]
    }

    /// The picture after `point`: where the point is accepted, the pixel
    /// takes the current colour and the point's depth; nothing else
    /// changes.
    pub open spec fn with_point(self, x: int, y: int, depth: int) -> FramebufferView {
        if self.accepts(x, y, depth) {
            FramebufferView {
                colors: self.colors.update(self.index_of(x, y), self.current),
                depths: self.depths.update(self.index_of(x, y), depth as i32),
                ..self
            }
        } else {
            self
        }
    }
}

/// The pixels of a picture are stored at distinct places inside the
/// buffers.
pub proof fn lemma_index_in_range(width: int, height: int, x: int, y: int)
    requires
        0 <= x < width,
        0 <= y < height,
    ensures
        0 <= y * width,
        0 <= y * width + x < width * height,
{
    assert(0 <= y * width && y * width + width <= height * width) by (nonlinear_arith)
        requires
            0 <= y,
            y + 1 <= height,
            width > 0,
    ;
    assert(height * width == width * height) by (nonlinear_arith);
}

/// Two pixels of a picture are stored at two places.
pub proof fn lemma_pixels_stored_apart(width: int, height: int, x: int, y: int, u: int, v: int)
    requires
        0 <= x < width,
        0 <= y < height,
        0 <= u < width,
        0 <= v < height,
        x != u || y != v,
    ensures
        y * width + x != v * width + u,
{
    if y < v {
        assert(v * width >= y * width + width) by (nonlinear_arith)
            requires
                y + 1 <= v,
                width > 0,
        ;
    }
    if v < y {
        assert(y * width >= v * width + width) by (nonlinear_arith)
            requires
                v + 1 <= y,
                width > 0,
        ;
    }
}

/// The depth test: a point leaves the size of the picture alone, moves no
/// pixel farther away, and leaves its own pixel at the nearer of the two
/// depths. With the colour it is the same: the pixel shows the current
/// colour exactly if the point was strictly nearer.
pub proof fn lemma_nearer_wins(view: FramebufferView, x: int, y: int, depth: int, i: int)
    requires
        view.wf(),
        i32::MIN <= depth <= i32::MAX,
        0 <= i < view.depths.len(),
    ensures
        view.with_point(x, y, depth).wf(),
        view.with_point(x, y, depth).width == view.width,
        view.with_point(x, y, depth).height == view.height,
        view.with_point(x, y, depth).depths[i] <= view.depths[i],
        i != view.index_of(x, y) || !view.contains(x, y) ==> view.with_point(x, y, depth).depths[i]
            == view.depths[i] && view.with_point(x, y, depth).colors[i] == view.colors[i],
        i == view.index_of(x, y) && view.contains(x, y) ==> view.with_point(x, y, depth).depths[i]
            == if depth < view.depths[i] {
            depth
        } else {
            view.depths[i] as int
        },
        i == view.index_of(x, y) && view.contains(x, y) ==> view.with_point(x, y, depth).colors[i]
            == if depth < view.depths[i] {
            view.current
        } else {
            view.colors[i]
        },
{
    if view.contains(x, y) {
        lemma_index_in_range(view.width as int, view.height as int, x, y);
    }
}

impl View for Framebuffer {
    type V = FramebufferView;

    closed spec fn view(&self) -> FramebufferView {
        FramebufferView {
            width: self.width as nat,
            height: self.height as nat,
            colors: self.buffer@,
            depths: self.zbuffer@,
            background: self.background_color,
            current: self.current_color,
        }
    }
}

impl Framebuffer {
    #[verifier::type_invariant]
    spec fn well_formed(self) -> bool {
        &&& self.width * self.height <= usize::MAX
        &&& self.buffer@.len() == self.width * self.height
        &&& self.zbuffer@.len() == self.width * self.height
    }

    /// A black picture of `width` by `height` pixels with nothing drawn on
    /// it, a black background and white as the colour to draw with.
    pub fn new(width: usize, height: usize) -> (fb: Framebuffer)
        requires
            width * height <= usize::MAX,
        ensures
            fb@.wf(),
            fb@.width == width,
            fb@.height == height,
            fb@.colors == Seq::new((width * height) as nat, |i: int| 0u32),
            fb@.depths == Seq::new((width * height) as nat, |i: int| FAR_DEPTH),
            fb@.background == 0,
            fb@.current == 0xff_ffff,
    {
        let size: usize = width * height;
        let buffer: Vec<u32> = vec![0u32; size];
        let zbuffer: Vec<i32> = vec![FAR_DEPTH; size];
        assert(buffer@ =~= Seq::new((width * height) as nat, |i: int| 0u32));
        assert(zbuffer@ =~= Seq::new((width * height) as nat, |i: int| FAR_DEPTH));
        Framebuffer {
            width,
            height,
            buffer,
            zbuffer,
            background_color: 0,
            current_color: 0xff_ffff,
        }
    }

    /// The number of columns.
    pub fn width(&self) -> (w: usize)
        ensures
            w == self@.width,
    {
        self.width
    }

    /// The number of rows.
    pub fn height(&self) -> (h: usize)
        ensures
            h == self@.height,
    {
        self.height
    }

    /// The colours of all pixels, row by row.
    pub fn buffer(&self) -> (b: &Vec<u32>)
        ensures
            b@ == self@.colors,
            self@.wf(),
    {
        proof {
            use_type_invariant(self);
        }
        &self.buffer
    }

    /// The depths of all pixels, row by row.
    pub fn zbuffer(&self) -> (z: &Vec<i32>)
        ensures
            z@ == self@.depths,
            self@.wf(),
    {
        proof {
            use_type_invariant(self);
        }
        &self.zbuffer
    }

    /// Sets the colour that `clear` fills the picture with.
    pub fn set_background_color(&mut self, color: u32)
        ensures
            final(self)@ == (FramebufferView { background: color, ..old(self)@ }),
    {
        proof {
            use_type_invariant(&*self);
        }
        self.background_color = color;
    }

    /// Sets the colour that `point` draws with.
    pub fn set_current_color(&mut self, color: u32)
        ensures
            final(self)@ == (FramebufferView { current: color, ..old(self)@ }),
    {
        proof {
            use_type_invariant(&*self);
        }
        self.current_color = color;
    }

    /// Fills the picture with the background colour and forgets every
    /// depth.
    pub fn clear(&mut self)
        ensures
            final(self)@ == old(self)@.cleared(),
            final(self)@.wf(),
    {
        proof {
            use_type_invariant(&*self);
        }
        let n: usize = self.buffer.len();
        let mut i: usize = 0;
        while i < n
            invariant
                i <= n,
                n == self.buffer@.len(),
                n == self.zbuffer@.len(),
                n == self.width * self.height,
                self.width == old(self).width,
                self.height == old(self).height,
                self.background_color == old(self).background_color,
                self.current_color == old(self).current_color,
                forall|j: int| 0 <= j < i ==> self.buffer@[j] == self.background_color,
                forall|j: int| 0 <= j < i ==> self.zbuffer@[j] == FAR_DEPTH,
            decreases n - i,
        {
            self.buffer[i] = self.background_color;
            self.zbuffer[i] = FAR_DEPTH;
            i = i + 1;
        }
        assert(self.buffer@ =~= old(self)@.cleared().colors);
        assert(self.zbuffer@ =~= old(self)@.cleared().depths);
    }

    /// Draws the current colour on pixel `(x, y)` if the pixel is part of
    /// the picture and `depth` is strictly nearer than what the pixel
    /// shows; otherwise nothing changes.
    pub fn point(&mut self, x: usize, y: usize, depth: i32)
        ensures
            final(self)@ == old(self)@.with_point(x as int, y as int, depth as int),
            final(self)@.wf(),
    {
        proof {
            use_type_invariant(&*self);
        }
        if x < self.width && y < self.height {
            proof {
                lemma_index_in_range(self.width as int, self.height as int, x as int, y as int);
            }
            let index: usize = y * self.width + x;
            if depth < self.zbuffer[index] {
                self.buffer[index] = self.current_color;
                self.zbuffer[index] = depth;
            }
        }
    }
}

} // verus!
