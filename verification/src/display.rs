//! The host's window and keypad, as the machine sees them, and what a host
//! with a pixel window and a keyboard needs to play that part: the keyboard
//! layout and the scaling of the screen to the window.

use vstd::prelude::*;
use vstd::arithmetic::div_mod::{
    lemma_div_pos_is_pos, lemma_fundamental_div_mod, lemma_fundamental_div_mod_converse,
};
use vstd::arithmetic::mul::{
    lemma_mul_inequality, lemma_mul_is_commutative, lemma_mul_is_distributive_add,
    lemma_mul_nonnegative,
};

verus! {

/// What the machine needs from its host: a place to show the framebuffer and
/// a keypad to read.
pub trait Display {
    /// Shows `buffer`, a row-major grid of `width` by `height` cells.
    fn update(&mut self, buffer: &[u8], width: usize, height: usize);

    /// Whether the host's window is still open.
    fn is_open(&self) -> bool;

    /// Whether the key with logical code `key` is held down.
    fn is_key_down(&self, key: usize) -> bool;
}

/// A host without window or keypad: always open, no key ever down.
pub struct NullDisplay;

impl NullDisplay {
    pub fn new() -> (display: Self) {
        NullDisplay
    }
}

impl Display for NullDisplay {
    fn update(&mut self, _buffer: &[u8], _width: usize, _height: usize)
        ensures
            *final(self) == *old(self),
    {
    }

    fn is_open(&self) -> (open: bool)
        ensures
            open,
    {
        true
    }

    fn is_key_down(&self, _key: usize) -> (down: bool)
        ensures
            !down,
    {
        false
    }
}

/// A key of the host's keyboard.
#[derive(Clone, Copy, Debug, PartialEq, Eq, Structural)]
pub enum HostKey {
    Key1,
    Key2,
    Key3,
    Key4,
    Q,
    W,
    E,
    R,
    A,
    S,
    D,
    F,
    Z,
    X,
    C,
    V,
}

/// The keyboard layout: the sixteen keys of the keypad laid over the left
/// four columns of the keyboard.
///
/// ```text
///   keypad      keyboard
///   1 2 3 C     1 2 3 4
///   4 5 6 D     Q W E R
///   7 8 9 E     A S D F
///   A 0 B F     Z X C V
/// ```
pub open spec fn spec_host_key(key: int) -> Option<HostKey> {
    if key == 0x0 {
        Some(HostKey::X)
    } else if key == 0x1 {
        Some(HostKey::Key1)
    } else if key == 0x2 {
        Some(HostKey::Key2)
    } else if key == 0x3 {
        Some(HostKey::Key3)
    } else if key == 0x4 {
        Some(HostKey::Q)
    } else if key == 0x5 {
        Some(HostKey::W)
    } else if key == 0x6 {
        Some(HostKey::E)
    } else if key == 0x7 {
        Some(HostKey::A)
    } else if key == 0x8 {
        Some(HostKey::S)
    } else if key == 0x9 {
        Some(HostKey::D)
    } else if key == 0xA {
        Some(HostKey::Z)
    } else if key == 0xB {
        Some(HostKey::C)
    } else if key == 0xC {
        Some(HostKey::Key4)
    } else if key == 0xD {
        Some(HostKey::R)
    } else if key == 0xE {
        Some(HostKey::F)
    } else if key == 0xF {
        Some(HostKey::V)
    } else {
        None
    }
}

/// The key of the keyboard that stands for the key `key` of the keypad;
/// `None` for a code that is no key of the keypad.
pub fn host_key(key: usize) -> (host: Option<HostKey>)
    ensures
        host == spec_host_key(key as int),
        host.is_some() == (key < 16),
{
    match key {
        0x0 => Some(HostKey::X),
        0x1 => Some(HostKey::Key1),
        0x2 => Some(HostKey::Key2),
        0x3 => Some(HostKey::Key3),
        0x4 => Some(HostKey::Q),
        0x5 => Some(HostKey::W),
        0x6 => Some(HostKey::E),
        0x7 => Some(HostKey::A),
        0x8 => Some(HostKey::S),
        0x9 => Some(HostKey::D),
        0xA => Some(HostKey::Z),
        0xB => Some(HostKey::C),
        0xC => Some(HostKey::Key4),
        0xD => Some(HostKey::R),
        0xE => Some(HostKey::F),
        0xF => Some(HostKey::V),
        _ => None,
    }
}

/// No two keys of the keypad share a key of the keyboard.
pub proof fn lemma_host_keys_differ(first: int, second: int)
    requires
        0 <= first < 16,
        0 <= second < 16,
        first != second,
    ensures
        spec_host_key(first) != spec_host_key(second),
{
}

/// Pixels of the window for each cell of the screen, in both directions.
pub const WINDOW_SCALE: usize = 10;

/// The size of the host's window: width and height in pixels, for a screen
/// of `columns` by `rows` cells shown at `WINDOW_SCALE`. `None` where a side
/// does not fit a `usize`.
pub fn window_size(columns: usize, rows: usize) -> (size: Option<(usize, usize)>)
    ensures
        size == if columns * 10 <= usize::MAX && rows * 10 <= usize::MAX {
            Some(((columns * 10) as usize, (rows * 10) as usize))
        } else {
            None
        },
{
    match (columns.checked_mul(WINDOW_SCALE), rows.checked_mul(WINDOW_SCALE)) {
        (Some(width), Some(height)) => Some((width, height)),
        _ => None,
    }
}

/// The colour of a lit cell in the window.
pub const LIT: u32 = 0xFFFF_FFFF;

/// The colour of a dark cell in the window.
pub const DARK: u32 = 0;

/// The colour that stands for `cell` in the window.
pub open spec fn colour(cell: u8) -> u32 {
    if cell == 0 {
        DARK
    } else {
        LIT
    }
}

/// Whether `cells` can be read as a grid of `columns` by `rows` cells.
pub open spec fn is_grid(cells: Seq<u8>, columns: int, rows: int) -> bool {
    columns > 0 && rows > 0 && columns * rows <= cells.len()
}

/// The window's pixels after the grid `cells`, of `columns` by `rows` cells,
/// was painted into a window of `width` by `height` pixels.
///
/// A cell becomes a block of `width / columns` by `height / rows` pixels,
/// the blocks lie side by side from the top left corner on, and the pixels to
/// the right of and below the last block are kept.
pub open spec fn painted(
    pixels: Seq<u32>,
    width: int,
    height: int,
    cells: Seq<u8>,
    columns: int,
    rows: int,
) -> Seq<u32> {
    let block_width = width / columns;
    let block_height = height / rows;
    Seq::new(
        pixels.len(),
        |p: int|
            {
                let x = p % width;
                let y = p / width;
                if x < columns * block_width && y < rows * block_height {
                    colour(cells[(y / block_height) * columns + x / block_width])
                } else {
                    pixels[p]
                }
            },
    )
}

/// The pixels of the host's window, row by row.
pub struct Frame {
    width: usize,
    height: usize,
    pixels: Vec<u32>,
}

impl Frame {
    /// A frame holds one pixel for each point of its window.
    #[verifier::type_invariant]
    spec fn well_sized(self) -> bool {
        self.pixels@.len() == self.width * self.height
    }

    /// The width of the window in pixels.
    pub closed spec fn spec_width(self) -> int {
        self.width as int
    }

    /// The height of the window in pixels.
    pub closed spec fn spec_height(self) -> int {
        self.height as int
    }

    /// The pixels of the window, row by row.
    pub closed spec fn view(self) -> Seq<u32> {
        self.pixels@
    }

    /// A dark frame for a window of `width` by `height` pixels; `None` where
    /// the number of pixels does not fit a `usize`.
    pub fn new(width: usize, height: usize) -> (frame: Option<Frame>)
        ensures
            frame.is_some() == (width * height <= usize::MAX),
            frame matches Some(f) ==> f.spec_width() == width && f.spec_height() == height && f@
                == Seq::new((width * height) as nat, |p: int| DARK),
    {
        match width.checked_mul(height) {
            None => None,
            Some(size) => {
                let pixels = vec![DARK; size];
                assert(pixels@ =~= Seq::new((width * height) as nat, |p: int| DARK));
                Some(Frame { width, height, pixels })
            },
        }
    }

    /// The width of the window in pixels.
    pub fn width(&self) -> (width: usize)
        ensures
            width == self.spec_width(),
    {
        self.width
    }

    /// The height of the window in pixels.
    pub fn height(&self) -> (height: usize)
        ensures
            height == self.spec_height(),
    {
        self.height
    }

    /// The pixels of the window, row by row.
    pub fn pixels(&self) -> (pixels: &Vec<u32>)
        ensures
            pixels@ == self@,
            pixels@.len() == self.spec_width() * self.spec_height(),
    {
        proof {
            use_type_invariant(self);
        }
        &self.pixels
    }

    /// Paints the grid `cells`, of `columns` by `rows` cells, into the frame:
    /// each cell as a block of `width / columns` by `height / rows` pixels,
    /// white where the cell is not zero, black where it is.
    ///
    /// Returns `false`, and paints nothing, where `cells` is no such grid:
    /// `columns` or `rows` is zero, or `cells` holds fewer than
    /// `columns * rows` cells.
    pub fn paint(&mut self, cells: &[u8], columns: usize, rows: usize) -> (done: bool)
        ensures
            done == is_grid(cells@, columns as int, rows as int),
            final(self).spec_width() == old(self).spec_width(),
            final(self).spec_height() == old(self).spec_height(),
            done ==> final(self)@ == painted(
                old(self)@,
                old(self).spec_width(),
                old(self).spec_height(),
                cells@,
                columns as int,
                rows as int,
            ),
            !done ==> final(self)@ == old(self)@,
    {
        proof {
            use_type_invariant(&*self);
        }
        let available = cells.len();
        let total = self.pixels.len();
        if columns == 0 || rows == 0 {
            return false;
        }
        match columns.checked_mul(rows) {
            None => {
                return false;
            },
            Some(count) => {
                if count > available {
                    return false;
                }
            },
        }
        let block_width = self.width / columns;
        let block_height = self.height / rows;
        let ghost before = self.pixels@;
        let ghost (w, h) = (self.width as int, self.height as int);
        proof {
            lemma_blocks_fit(w, columns as int);
            lemma_blocks_fit(h, rows as int);
        }
        let painted_width = columns * block_width;
        let painted_height = rows * block_height;
        let mut y: usize = 0;
        while y < painted_height
            invariant
                y <= painted_height,
                painted_width == columns * block_width,
                painted_height == rows * block_height,
                block_width == w / (columns as int),
                block_height == h / (rows as int),
                painted_width <= w,
                painted_height <= h,
                columns > 0,
                rows > 0,
                columns * rows <= cells@.len(),
                cells@.len() == available,
                w * h == total,
                self.width == w,
                self.height == h,
                self.pixels@.len() == w * h,
                before.len() == w * h,
                forall|p: int|
                    0 <= p < w * h ==> #[trigger] self.pixels@[p] == if p < y * w {
                        painted(before, w, h, cells@, columns as int, rows as int)[p]
                    } else {
                        before[p]
                    },
            decreases painted_height - y,
        {
            let mut x: usize = 0;
            proof {
                lemma_row_fits(y as int, w, h);
                lemma_mul_is_distributive_add(w, y as int, 1);
                lemma_mul_is_commutative(w, y as int);
                lemma_mul_is_commutative(w, y + 1);
            }
            while x < painted_width
                invariant
                    y < painted_height,
                    x <= painted_width,
                    painted_width == columns * block_width,
                    painted_height == rows * block_height,
                    block_width == w / (columns as int),
                    block_height == h / (rows as int),
                    painted_width <= w,
                    painted_height <= h,
                    columns > 0,
                    rows > 0,
                    columns * rows <= cells@.len(),
                    cells@.len() == available,
                    w * h == total,
                    self.width == w,
                    self.height == h,
                    self.pixels@.len() == w * h,
                    before.len() == w * h,
                    (y + 1) * w == y * w + w,
                    y * w + w <= w * h,
                    0 <= y * w,
                    forall|p: int|
                        0 <= p < w * h ==> #[trigger] self.pixels@[p] == if p < y * w + x {
                            painted(before, w, h, cells@, columns as int, rows as int)[p]
                        } else {
                            before[p]
                        },
                decreases painted_width - x,
            {
                proof {
                    lemma_cell_of_pixel(
                        x as int,
                        y as int,
                        w,
                        h,
                        columns as int,
                        rows as int,
                        cells@.len() as int,
                    );
                }
                let cell = cells[(y / block_height) * columns + x / block_width];
                let p = y * self.width + x;
                self.pixels[p] = if cell == 0 {
                    DARK
                } else {
                    LIT
                };
                x += 1;
            }
            proof {
                assert forall|p: int| 0 <= p < w * h implies #[trigger] self.pixels@[p] == if p < (y
                    + 1) * w {
                    painted(before, w, h, cells@, columns as int, rows as int)[p]
                } else {
                    before[p]
                } by {
                    if y * w + painted_width <= p < (y + 1) * w {
                        lemma_fundamental_div_mod_converse(p, w, y as int, p - y * w);
                    }
                }
            }
            y += 1;
        }
        proof {
            assert forall|p: int| 0 <= p < w * h implies #[trigger] self.pixels@[p] == painted(
                before,
                w,
                h,
                cells@,
                columns as int,
                rows as int,
            )[p] by {
                assert(w != 0) by (nonlinear_arith)
                    requires
                        0 <= p < w * h,
                ;
                if p >= painted_height * w {
                    lemma_fundamental_div_mod(p, w);
                    lemma_mul_is_commutative(w, p / w);
                    if p / w < painted_height {
                        lemma_mul_inequality(p / w + 1, painted_height as int, w);
                        lemma_mul_is_distributive_add(w, p / w, 1);
                        lemma_mul_is_commutative(w, p / w + 1);
                    }
                }
            }
            assert(self.pixels@ =~= painted(before, w, h, cells@, columns as int, rows as int));
        }
        true
    }
}

/// Whole blocks of `size / count` pixels, `count` of them, fit within `size`.
proof fn lemma_blocks_fit(size: int, count: int)
    requires
        0 <= size,
        0 < count,
    ensures
        0 <= size / count,
        0 <= count * (size / count) <= size,
{
    lemma_fundamental_div_mod(size, count);
    lemma_div_pos_is_pos(size, count);
    lemma_mul_nonnegative(count, size / count);
}

/// Row `y` of a window lies within its pixels.
proof fn lemma_row_fits(y: int, w: int, h: int)
    requires
        0 <= y < h,
        0 <= w,
    ensures
        0 <= y * w,
        y * w + w <= w * h,
{
    lemma_mul_nonnegative(y, w);
    lemma_mul_inequality(y + 1, h, w);
    lemma_mul_is_distributive_add(w, y, 1);
    lemma_mul_is_commutative(w, y + 1);
    lemma_mul_is_commutative(w, y);
    lemma_mul_is_commutative(w, h);
}

/// The pixel `(x, y)` of the painted part of a window has the index
/// `y * w + x`, and the cell that it shows is a cell of the grid.
proof fn lemma_cell_of_pixel(x: int, y: int, w: int, h: int, columns: int, rows: int, cells: int)
    requires
        0 < columns,
        0 < rows,
        columns * rows <= cells,
        0 <= w,
        0 <= h,
        0 <= x < columns * (w / columns),
        0 <= y < rows * (h / rows),
    ensures
        0 < w / columns,
        0 < h / rows,
        0 <= y / (h / rows) < rows,
        0 <= x / (w / columns) < columns,
        0 <= (y / (h / rows)) * columns + x / (w / columns) < cells,
        0 <= (y / (h / rows)) * columns,
        x < w,
        y < h,
        0 <= y * w + x < w * h,
        (y * w + x) % w == x,
        (y * w + x) / w == y,
{
    let bw = w / columns;
    let bh = h / rows;
    lemma_blocks_fit(w, columns);
    lemma_blocks_fit(h, rows);
    assert(bw > 0) by (nonlinear_arith)
        requires
            0 <= x < columns * bw,
            0 < columns,
            0 <= bw,
    ;
    assert(bh > 0) by (nonlinear_arith)
        requires
            0 <= y < rows * bh,
            0 < rows,
            0 <= bh,
    ;
    let cx = x / bw;
    let cy = y / bh;
    lemma_fundamental_div_mod(x, bw);
    lemma_fundamental_div_mod(y, bh);
    assert(0 <= cx < columns) by (nonlinear_arith)
        requires
            x == bw * cx + x % bw,
            0 <= x % bw < bw,
            0 <= x < columns * bw,
            0 < bw,
    ;
    assert(0 <= cy < rows) by (nonlinear_arith)
        requires
            y == bh * cy + y % bh,
            0 <= y % bh < bh,
            0 <= y < rows * bh,
            0 < bh,
    ;
    assert(0 <= cy * columns && cy * columns + cx < columns * rows) by (nonlinear_arith)
        requires
            0 <= cx < columns,
            0 <= cy < rows,
    ;
    lemma_row_fits(y, w, h);
    lemma_mul_is_commutative(w, y);
    lemma_fundamental_div_mod_converse(y * w + x, w, y, x);
}

} // verus!
