//! The frame buffer and the pass over its pixels.

use vstd::prelude::*;
use crate::objects::color4u8::Color4u8;

verus! {

/// A frame: `width` times `height` words, one per pixel, row after row.
pub struct Application {
    pub buffers: Vec<u32>,
    pub width: usize,
    pub height: usize,
}

/// The place in a frame `width` pixels wide of the pixel in column `x` of row `y`.
pub open spec fn offset(width: int, x: int, y: int) -> int {
    y * width + x
}

/// The word of a pixel after its ray was traced: the packed colour where the ray hit,
/// the word from before where it missed.
pub open spec fn painted(before: u32, outcome: Option<Color4u8>) -> u32 {
    match outcome {
        Some(color) => color.packed(),
        None => before,
    }
}

/// Whether `after` is what one call of `shade` for the pixel can make of `before`.
pub open spec fn shaded_by<F: Fn(usize, usize) -> Option<Color4u8>>(
    shade: F,
    x: usize,
    y: usize,
    before: u32,
    after: u32,
) -> bool {
    exists|outcome: Option<Color4u8>|
        call_ensures(shade, (x, y), outcome) && after == painted(before, outcome)
}

/// The pixels of a frame have places of their own within it.
pub proof fn lemma_offset(width: int, height: int, x: int, y: int)
    requires
        0 <= x < width,
        0 <= y < height,
    ensures
        0 <= y * width <= offset(width, x, y) < width * height,
        forall|u: int, v: int|
            0 <= u < width && 0 <= v && #[trigger] offset(width, u, v) == offset(width, x, y) ==> u
                == x && v == y,
{
    assert(0 <= y * width && y * width + width <= width * height) by (nonlinear_arith)
        requires
            0 <= y < height,
            0 < width,
    ;
    assert forall|u: int, v: int|
        0 <= u < width && 0 <= v && #[trigger] offset(width, u, v) == offset(width, x, y) implies u
        == x && v == y by {
        assert(v == y) by (nonlinear_arith)
            requires
                0 <= u < width,
                0 <= x < width,
                v * width + u == y * width + x,
        ;
    }
}

/// Whether pixel (`u`, `v`) comes before pixel (`x`, `y`) in a pass that goes column
/// by column, and down each column.
spec fn passed(u: usize, v: usize, x: usize, y: usize) -> bool {
    u < x || (u == x && v < y)
}

/// Whether a pass over `before` that stands at pixel (`x`, `y`) has left `now`: each
/// pixel behind it is shaded, each pixel ahead of it is as it was.
spec fn rendered_to<F: Fn(usize, usize) -> Option<Color4u8>>(
    shade: F,
    width: usize,
    height: usize,
    before: Seq<u32>,
    now: Seq<u32>,
    x: usize,
    y: usize,
) -> bool {
    &&& now.len() == before.len() == width * height
    &&& forall|u: usize, v: usize|
        #![trigger offset(width as int, u as int, v as int)]
        u < width && v < height && passed(u, v, x, y) ==> shaded_by(
            shade,
            u,
            v,
            before[offset(width as int, u as int, v as int)],
            now[offset(width as int, u as int, v as int)],
        )
    &&& forall|u: usize, v: usize|
        #![trigger offset(width as int, u as int, v as int)]
        u < width && v < height && !passed(u, v, x, y) ==> now[offset(
            width as int,
            u as int,
            v as int,
        )] == before[offset(width as int, u as int, v as int)]
}

impl Application {
    /// Whether the buffer holds one word for each pixel.
    pub open spec fn wf(&self) -> bool {
        self.buffers.len() == self.width * self.height
    }

    /// The word of the pixel in column `x` of row `y`.
    pub open spec fn pixel(&self, x: int, y: int) -> u32 {
        self.buffers@[offset(self.width as int, x, y)]
    }

    /// Whether the buffer holds one word for each pixel.
    pub fn is_wf(&self) -> (r: bool)
        ensures
            r == self.wf(),
    {
        match self.width.checked_mul(self.height) {
            Some(pixels) => self.buffers.len() == pixels,
            None => false,
        }
    }

    /// A black frame of the given size.
    pub fn new(width: usize, height: usize) -> (app: Self)
        requires
            width * height <= usize::MAX,
        ensures
            app.wf(),
            app.width == width,
            app.height == height,
            forall|i: int| 0 <= i < app.buffers@.len() ==> app.buffers@[i] == 0,
    {
        Application { buffers: vec![0u32; width * height], width, height }
    }

    /// Sets the pixel in column `x` of row `y` to the colour that its ray found, and
    /// leaves it as it is where the ray found none. No other pixel changes.
    pub fn plot(&mut self, x: usize, y: usize, outcome: Option<Color4u8>)
        requires
            old(self).wf(),
            x < old(self).width,
            y < old(self).height,
        ensures
            final(self).width == old(self).width,
            final(self).height == old(self).height,
            final(self).buffers@ == old(self).buffers@.update(
                offset(old(self).width as int, x as int, y as int),
                painted(old(self).pixel(x as int, y as int), outcome),
            ),
    {
        proof {
            lemma_offset(self.width as int, self.height as int, x as int, y as int);
        }
        if let Some(color) = outcome {
            let at: usize = y * self.width + x;
            self.buffers.set(at, color.as_u32());
        }
        assert(self.buffers@ =~= old(self).buffers@.update(
            offset(old(self).width as int, x as int, y as int),
            painted(old(self).pixel(x as int, y as int), outcome),
        ));
    }

    /// Renders a frame: asks `shade` for each pixel, by column and row, what its ray
    /// found, and plots the answer. Every pixel then holds the colour found for it,
    /// or what it held before where none was found.
    pub fn render<F: Fn(usize, usize) -> Option<Color4u8>>(app: &mut Application, shade: F)
        requires
            old(app).wf(),
            forall|x: usize, y: usize|
                x < old(app).width && y < old(app).height ==> call_requires(shade, (x, y)),
        ensures
            final(app).width == old(app).width,
            final(app).height == old(app).height,
            final(app).buffers@.len() == old(app).buffers@.len(),
            forall|x: usize, y: usize|
                #![trigger final(app).pixel(x as int, y as int)]
                x < old(app).width && y < old(app).height ==> shaded_by(
                    shade,
                    x,
                    y,
                    old(app).pixel(x as int, y as int),
                    final(app).pixel(x as int, y as int),
                ),
    {
        let ghost before = app.buffers@;
        let width: usize = app.width;
        let height: usize = app.height;
        let mut x: usize = 0;
        while x < width
            invariant
                x <= width,
                app.width == width,
                app.height == height,
                app.wf(),
                forall|u: usize, v: usize| u < width && v < height ==> call_requires(shade, (u, v)),
                rendered_to(shade, width, height, before, app.buffers@, x, 0),
            decreases width - x,
        {
            let mut y: usize = 0;
            while y < height
                invariant
                    x < width,
                    y <= height,
                    app.width == width,
                    app.height == height,
                    app.wf(),
                    forall|u: usize, v: usize|
                        u < width && v < height ==> call_requires(shade, (u, v)),
                    rendered_to(shade, width, height, before, app.buffers@, x, y),
                decreases height - y,
            {
                let ghost earlier = app.buffers@;
                let outcome = shade(x, y);
                app.plot(x, y, outcome);
                proof {
                    lemma_offset(width as int, height as int, x as int, y as int);
                    let at = offset(width as int, x as int, y as int);
                    assert(shaded_by(shade, x, y, before[at], app.buffers@[at]));
                    assert forall|u: usize, v: usize|
                        #![trigger offset(width as int, u as int, v as int)]
                        u < width && v < height && !(u == x && v == y) implies app.buffers@[offset(
                        width as int,
                        u as int,
                        v as int,
                    )] == earlier[offset(width as int, u as int, v as int)] by {
                        lemma_offset(width as int, height as int, u as int, v as int);
                    }
                }
                y += 1;
            }
            x += 1;
        }
    }
}

} // verus!
