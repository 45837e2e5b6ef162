//! Windows on a frame buffer: which lies over which, and how a window is
//! drawn into the buffer.
use vstd::prelude::*;

verus! {

/// What a client asks of the display. Windows are known by their numbers.
#[derive(Clone, Copy, Debug, PartialEq, Eq, Structural)]
pub enum Request {
    /// Take the window away.
    RemoveWindow(usize),
    /// Make a window of the width and height given.
    AddWindow(usize, usize),
    /// Use a frame buffer of the width, height and stride given.
    AddFrameBuffer(usize, usize, usize),
    /// Put the window in front of all others.
    Focus(usize),
    /// Move the window to the place given.
    Move(usize, usize, usize),
}

/// A window: its number, its place on the frame buffer, and its size.
#[derive(Clone, Copy, Debug, PartialEq, Eq, Structural)]
pub struct Window {
    pub id: usize,
    pub x: isize,
    pub y: isize,
    pub width: usize,
    pub height: usize,
}

/// The part of a window that falls on the frame buffer: the columns from
/// `x_base` and the rows from `y_base`, up to but not including `x_lim` and
/// `y_lim`.
#[derive(Clone, Copy, Debug, PartialEq, Eq, Structural)]
pub struct Clip {
    pub x_base: usize,
    pub y_base: usize,
    pub x_lim: usize,
    pub y_lim: usize,
}

/// `v`, but no less than `lo` and no more than `hi`.
pub open spec fn clamp(v: int, lo: int, hi: int) -> int {
    if v < lo {
        lo
    } else if v > hi {
        hi
    } else {
        v
    }
}

/// The part of a window at `pos` of the extent `size` that falls between 0
/// and `limit`: where it starts and where it ends.
pub open spec fn span(pos: int, size: int, limit: int) -> (int, int) {
    (clamp(pos, 0, limit), clamp(pos + size, clamp(pos, 0, limit), limit))
}

/// The part of `window` that falls on a frame buffer of the size given.
/// Where the window lies outside, the part is empty.
pub fn clip(window: &Window, fb_width: usize, fb_height: usize) -> (r: Clip)
    ensures
        r.x_base == span(window.x as int, window.width as int, fb_width as int).0,
        r.x_lim == span(window.x as int, window.width as int, fb_width as int).1,
        r.y_base == span(window.y as int, window.height as int, fb_height as int).0,
        r.y_lim == span(window.y as int, window.height as int, fb_height as int).1,
        r.x_base <= r.x_lim <= fb_width,
        r.y_base <= r.y_lim <= fb_height,
{
    let (x_base, x_lim) = clip_span(window.x, window.width, fb_width);
    let (y_base, y_lim) = clip_span(window.y, window.height, fb_height);
    Clip { x_base, y_base, x_lim, y_lim }
}

/// The part of the extent `size` at `pos` that falls between 0 and `limit`.
fn clip_span(pos: isize, size: usize, limit: usize) -> (r: (usize, usize))
    ensures
        r.0 == span(pos as int, size as int, limit as int).0,
        r.1 == span(pos as int, size as int, limit as int).1,
        r.0 <= r.1 <= limit,
{
    let end: i128 = pos as i128 + size as i128;
    let base: i128 = if pos < 0 {
        0
    } else if pos as i128 > limit as i128 {
        limit as i128
    } else {
        pos as i128
    };
    let lim: i128 = if end < base {
        base
    } else if end > limit as i128 {
        limit as i128
    } else {
        end
    };
    (base as usize, lim as usize)
}

/// The windows on a frame buffer, the one in front first.
pub struct WindowStack {
    pub windows: Vec<Window>,
}

impl WindowStack {
    /// Whether no two windows have the same number.
    pub open spec fn wf(self) -> bool {
        forall|i: int, j: int|
            0 <= i < j < self.windows@.len() ==> self.windows@[i].id != self.windows@[j].id
    }

    /// The place of the window with the number `id` in the stack; the
    /// number of windows where there is none.
    pub open spec fn place_of(self, id: usize) -> int
        decreases self.windows@.len(),
    {
        place_in(self.windows@, id)
    }

    /// No windows.
    pub fn new() -> (r: Self)
        ensures
            r.windows@.len() == 0,
            r.wf(),
    {
        WindowStack { windows: Vec::new() }
    }

    /// The place of the window with the number `id`, if there is one.
    pub fn find(&self, id: usize) -> (r: Option<usize>)
        ensures
            r is Some <==> self.place_of(id) < self.windows@.len(),
            r is Some ==> r->0 == self.place_of(id) && self.windows@[r->0 as int].id == id,
            r is None ==> forall|i: int| 0 <= i < self.windows@.len() ==> self.windows@[i].id != id,
    {
        let mut i: usize = 0;
        proof {
            assert(self.windows@.skip(0) =~= self.windows@);
        }
        while i < self.windows.len()
            invariant
                i <= self.windows@.len(),
                forall|j: int| 0 <= j < i ==> self.windows@[j].id != id,
                place_in(self.windows@, id) == i + place_in(self.windows@.skip(i as int), id),
            decreases self.windows@.len() - i,
        {
            proof {
                assert(self.windows@.skip(i as int).drop_first() =~= self.windows@.skip(i + 1));
            }
            if self.windows[i].id == id {
                return Some(i);
            }
            i += 1;
        }
        None
    }

    /// Puts a new window of the size given, with the number `id`, at the
    /// top left in front of all others. Answers whether the number was
    /// free; if not, nothing changes.
    pub fn add(&mut self, id: usize, width: usize, height: usize) -> (r: bool)
        requires
            old(self).wf(),
        ensures
            final(self).wf(),
            r == (old(self).place_of(id) >= old(self).windows@.len()),
            r ==> final(self).windows@ == seq![Window { id, x: 0, y: 0, width, height }] + old(
                self,
            ).windows@,
            !r ==> final(self).windows@ == old(self).windows@,
    {
        if self.find(id).is_some() {
            return false;
        }
        self.windows.insert(0, Window { id, x: 0, y: 0, width, height });
        proof {
            assert(self.windows@ =~= seq![Window { id, x: 0, y: 0, width, height }] + old(
                self,
            ).windows@);
        }
        true
    }

    /// Takes the window with the number `id` away. Answers with the window,
    /// if there was one; the others keep their order.
    pub fn remove(&mut self, id: usize) -> (r: Option<Window>)
        requires
            old(self).wf(),
        ensures
            final(self).wf(),
            r is Some <==> old(self).place_of(id) < old(self).windows@.len(),
            r is Some ==> r->0 == old(self).windows@[old(self).place_of(id)] && final(self).windows@
                == old(self).windows@.remove(old(self).place_of(id)),
            r is None ==> final(self).windows@ == old(self).windows@,
    {
        match self.find(id) {
            Some(i) => Some(self.windows.remove(i)),
            None => None,
        }
    }

    /// Puts the window with the number `id` in front of all others, which
    /// keep their order. Answers whether there is such a window.
    pub fn focus(&mut self, id: usize) -> (r: bool)
        requires
            old(self).wf(),
        ensures
            final(self).wf(),
            r == (old(self).place_of(id) < old(self).windows@.len()),
            r ==> final(self).windows@ == seq![old(self).windows@[old(self).place_of(id)]] + old(
                self,
            ).windows@.remove(old(self).place_of(id)),
            !r ==> final(self).windows@ == old(self).windows@,
    {
        match self.find(id) {
            Some(i) => {
                let window = self.windows.remove(i);
                self.windows.insert(0, window);
                proof {
                    assert(self.windows@ =~= seq![window] + old(self).windows@.remove(i as int));
                }
                true
            },
            None => false,
        }
    }

    /// Moves the window with the number `id` to the place given. Answers
    /// whether there is such a window.
    pub fn move_to(&mut self, id: usize, x: usize, y: usize) -> (r: bool)
        requires
            old(self).wf(),
        ensures
            final(self).wf(),
            r == (old(self).place_of(id) < old(self).windows@.len()),
            r ==> final(self).windows@ == old(self).windows@.update(
                old(self).place_of(id),
                Window {
                    x: x as isize,
                    y: y as isize,
                    ..old(self).windows@[old(self).place_of(id)]
                },
            ),
            !r ==> final(self).windows@ == old(self).windows@,
    {
        match self.find(id) {
            Some(i) => {
                let window = self.windows[i];
                self.windows.set(
                    i,
                    Window {
                        x: #[verifier::truncate]
                        (x as isize),
                        y: #[verifier::truncate]
                        (y as isize),
                        ..window
                    },
                );
                true
            },
            None => false,
        }
    }
}

/// The place of the first window with the number `id` in `windows`; the
/// number of windows where there is none.
pub open spec fn place_in(windows: Seq<Window>, id: usize) -> int
    decreases windows.len(),
{
    if windows.len() == 0 {
        0
    } else if windows[0].id == id {
        0
    } else {
        1 + place_in(windows.drop_first(), id)
    }
}

/// What `frame` shows after the part `part` of a window was drawn into it:
/// inside the part the window's pixels, outside what it showed before. The
/// window has its top left at (`x`, `y`) and rows of `width` pixels; the
/// frame has rows of `stride` pixels.
pub open spec fn drawn(
    frame: Seq<u32>,
    stride: int,
    pixels: Seq<u32>,
    x: int,
    y: int,
    width: int,
    part: Clip,
) -> Seq<u32> {
    Seq::new(
        frame.len(),
        |i: int|
            if stride > 0 && part.y_base <= i / stride < part.y_lim && part.x_base <= i % stride
                < part.x_lim {
                pixels[(i / stride - y) * width + (i % stride - x)]
            } else {
                frame[i]
            },
    )
}

/// Draws the part of `window` that falls on the frame buffer into `frame`,
/// row by row. `pixels` holds the window's pixels, `frame` those of the
/// frame buffer, whose rows are `stride` pixels apart.
pub fn draw_window(
    frame: &mut Vec<u32>,
    fb_width: usize,
    fb_height: usize,
    stride: usize,
    window: &Window,
    pixels: &Vec<u32>,
)
    requires
        fb_width <= stride,
        old(frame)@.len() == fb_height * stride,
        pixels@.len() == window.width * window.height,
    ensures
        final(frame)@ == drawn(
            old(frame)@,
            stride as int,
            pixels@,
            window.x as int,
            window.y as int,
            window.width as int,
            Clip {
                x_base: span(window.x as int, window.width as int, fb_width as int).0 as usize,
                y_base: span(window.y as int, window.height as int, fb_height as int).0 as usize,
                x_lim: span(window.x as int, window.width as int, fb_width as int).1 as usize,
                y_lim: span(window.y as int, window.height as int, fb_height as int).1 as usize,
            },
        ),
{
    let part = clip(window, fb_width, fb_height);
    let ghost before = frame@;
    let total: usize = frame.len();
    let count: usize = pixels.len();
    proof {
        assert(frame@ =~= drawn(
            before,
            stride as int,
            pixels@,
            window.x as int,
            window.y as int,
            window.width as int,
            Clip { y_lim: part.y_base, ..part },
        ));
    }
    let mut row: usize = part.y_base;
    while row < part.y_lim
        invariant
            part.y_base <= row <= part.y_lim <= fb_height,
            part.x_base <= part.x_lim <= fb_width <= stride,
            part.x_base == span(window.x as int, window.width as int, fb_width as int).0,
            part.x_lim == span(window.x as int, window.width as int, fb_width as int).1,
            part.y_base == span(window.y as int, window.height as int, fb_height as int).0,
            part.y_lim == span(window.y as int, window.height as int, fb_height as int).1,
            frame@.len() == before.len() == fb_height * stride,
            pixels@.len() == window.width * window.height,
            frame@.len() <= usize::MAX,
            pixels@.len() <= usize::MAX,
            frame@ == drawn(
                before,
                stride as int,
                pixels@,
                window.x as int,
                window.y as int,
                window.width as int,
                Clip { y_lim: row, ..part },
            ),
        decreases part.y_lim - row,
    {
        let mut col: usize = part.x_base;
        let ghost row_start = frame@;
        while col < part.x_lim
            invariant
                part.y_base <= row < part.y_lim <= fb_height,
                part.x_base <= col <= part.x_lim <= fb_width <= stride,
                part.x_base == span(window.x as int, window.width as int, fb_width as int).0,
                part.x_lim == span(window.x as int, window.width as int, fb_width as int).1,
                part.y_base == span(window.y as int, window.height as int, fb_height as int).0,
                part.y_lim == span(window.y as int, window.height as int, fb_height as int).1,
                frame@.len() == before.len() == fb_height * stride,
                pixels@.len() == window.width * window.height,
                frame@.len() <= usize::MAX,
                pixels@.len() <= usize::MAX,
                row_start == drawn(
                    before,
                    stride as int,
                    pixels@,
                    window.x as int,
                    window.y as int,
                    window.width as int,
                    Clip { y_lim: row, ..part },
                ),
                forall|i: int|
                    0 <= i < frame@.len() ==> frame@[i] == if i / (stride as int) == row
                        && part.x_base <= i % (stride as int) < col {
                        pixels@[(row - window.y) * window.width + (i % (stride as int) - window.x)]
                    } else {
                        row_start[i]
                    },
            decreases part.x_lim - col,
        {
            let rel_y: usize = (row as i128 - window.y as i128) as usize;
            let rel_x: usize = (col as i128 - window.x as i128) as usize;
            proof {
                assert(0 <= rel_y < window.height && 0 <= rel_x < window.width);
                assert(rel_y * window.width + rel_x < window.width * window.height)
                    by (nonlinear_arith)
                    requires
                        0 <= rel_y < window.height,
                        0 <= rel_x < window.width,
                ;
                assert(row * stride + col < fb_height * stride) by (nonlinear_arith)
                    requires
                        row < fb_height,
                        col < stride,
                ;
                assert(0 <= rel_y * window.width && 0 <= row * stride) by (nonlinear_arith)
                    requires
                        0 <= rel_y,
                        0 <= row,
                ;
                lemma_cell(row as int, col as int, stride as int);
            }
            let src: usize = rel_y * window.width + rel_x;
            let dst: usize = row * stride + col;
            frame.set(dst, pixels[src]);
            proof {
                assert forall|i: int| 0 <= i < frame@.len() implies frame@[i] == if i / (
                stride as int) == row && part.x_base <= i % (stride as int) < col + 1 {
                    pixels@[(row - window.y) * window.width + (i % (stride as int) - window.x)]
                } else {
                    row_start[i]
                } by {
                    if i != dst {
                        if i / (stride as int) == row && i % (stride as int) == col {
                            vstd::arithmetic::div_mod::lemma_fundamental_div_mod(i, stride as int);
                            assert(stride * row == row * stride) by (nonlinear_arith);
                        }
                    }
                }
            }
            col += 1;
        }
        proof {
            assert(frame@ =~= drawn(
                before,
                stride as int,
                pixels@,
                window.x as int,
                window.y as int,
                window.width as int,
                Clip { y_lim: (row + 1) as usize, ..part },
            ));
        }
        row += 1;
    }
}

/// The pixel at column `col` of row `row` has the index `row * stride +
/// col`, and no other index lies in that row at that column.
pub proof fn lemma_cell(row: int, col: int, stride: int)
    requires
        0 <= row,
        0 <= col < stride,
    ensures
        (row * stride + col) / stride == row,
        (row * stride + col) % stride == col,
{
    vstd::arithmetic::div_mod::lemma_fundamental_div_mod_converse(
        row * stride + col,
        stride,
        row,
        col,
    );
    assert(stride * row == row * stride) by (nonlinear_arith);
}


} // verus!
