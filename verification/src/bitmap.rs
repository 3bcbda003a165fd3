//! Two-colour pictures, module by module and dot by dot.

use vstd::prelude::*;
use vstd::arithmetic::div_mod::{lemma_fundamental_div_mod, lemma_fundamental_div_mod_converse};
use crate::element::HriPosition;

verus! {

/// A picture of dark and light cells, row by row from the top.
#[derive(Debug, Clone)]
pub struct Bitmap {
    pub width: usize,
    pub height: usize,
    pub dark: Vec<bool>,
}

/// A picture of dark and light cells, as a mathematical value.
#[verifier::ext_equal]
pub struct BitmapView {
    pub width: int,
    pub height: int,
    pub dark: Seq<bool>,
}

impl View for Bitmap {
    type V = BitmapView;

    open spec fn view(&self) -> BitmapView {
        BitmapView { width: self.width as int, height: self.height as int, dark: self.dark@ }
    }
}

impl BitmapView {
    /// There is one cell for each place.
    pub open spec fn wf(self) -> bool {
        &&& 0 <= self.width
        &&& 0 <= self.height
        &&& self.dark.len() == self.width * self.height
    }

    /// The cell in column `x` of row `y`.
    pub open spec fn at(self, x: int, y: int) -> bool {
        self.dark[y * self.width + x]
    }
}

/// The picture of the given size whose cell in column `x` of row `y` is
/// `cell(x, y)`.
pub open spec fn picture(width: int, height: int, cell: spec_fn(int, int) -> bool) -> BitmapView {
    BitmapView {
        width,
        height,
        dark: Seq::new((width * height) as nat, |p: int| cell(p % width, p / width)),
    }
}

/// A picture whose cells are all `scale` times as wide and as high.
pub open spec fn scaled(b: BitmapView, scale: int) -> BitmapView {
    picture(b.width * scale, b.height * scale, |x: int, y: int| b.at(x / scale, y / scale))
}

/// A picture that fits in memory when it is shown, at four bytes for a dot.
pub open spec fn fits(width: int, height: int) -> bool {
    &&& 0 <= width <= usize::MAX
    &&& 0 <= height <= usize::MAX
    &&& width * height <= usize::MAX / 8
}

/// Rows of dots that the human readable text of a barcode takes.
pub const HRI_LINE_HEIGHT: usize = 14;

pub open spec fn hri_above(position: HriPosition) -> bool {
    position == HriPosition::Above || position == HriPosition::Both
}

pub open spec fn hri_below(position: HriPosition) -> bool {
    position == HriPosition::Below || position == HriPosition::Both
}

/// Rows that are kept free above the bars.
pub open spec fn rows_above(position: HriPosition) -> int {
    if hri_above(position) {
        HRI_LINE_HEIGHT as int
    } else {
        0
    }
}

/// Rows that are kept free below the bars.
pub open spec fn rows_below(position: HriPosition) -> int {
    if hri_below(position) {
        HRI_LINE_HEIGHT as int
    } else {
        0
    }
}

impl HriPosition {
    /// Whether the text stands above the bars.
    pub fn is_above(&self) -> (r: bool)
        ensures
            r == hri_above(*self),
    {
        matches!(self, HriPosition::Above | HriPosition::Both)
    }

    /// Whether the text stands below the bars.
    pub fn is_below(&self) -> (r: bool)
        ensures
            r == hri_below(*self),
    {
        matches!(self, HriPosition::Below | HriPosition::Both)
    }
}

/// A barcode: the first row of `bars`, `module_width` times as wide and `height`
/// dots high, with free rows above and below for the human readable text.
pub open spec fn barcode_picture(
    bars: BitmapView,
    height: int,
    module_width: int,
    position: HriPosition,
) -> BitmapView {
    let top = rows_above(position);
    picture(
        bars.width * module_width,
        top + height + rows_below(position),
        |x: int, y: int| top <= y < top + height && bars.at(x / module_width, 0),
    )
}

pub(crate) proof fn lemma_cell(width: int, height: int, p: int)
    requires
        0 <= p < width * height,
        0 <= width,
        0 <= height,
    ensures
        0 < width,
        0 <= p % width < width,
        0 <= p / width < height,
        p == (p / width) * width + p % width,
{
    assert(width != 0) by (nonlinear_arith)
        requires
            p < width * height,
            p >= 0,
    ;
    lemma_fundamental_div_mod(p, width);
    assert(0 <= p / width < height) by (nonlinear_arith)
        requires
            0 <= p < width * height,
            0 < width,
    ;
    assert((p / width) * width == width * (p / width)) by (nonlinear_arith);
}

/// A picture has the cells that it was given.
pub proof fn picture_cells(
    width: int,
    height: int,
    cell: spec_fn(int, int) -> bool,
    x: int,
    y: int,
)
    requires
        0 <= x < width,
        0 <= y < height,
    ensures
        picture(width, height, cell).wf(),
        picture(width, height, cell).at(x, y) == cell(x, y),
{
    let p = y * width + x;
    assert(0 <= p < width * height) by (nonlinear_arith)
        requires
            p == y * width + x,
            0 <= x < width,
            0 <= y < height,
    ;
    lemma_fundamental_div_mod_converse(p, width, y, x);
}

/// In a scaled picture each cell is a square of its colour.
pub proof fn scaled_cells(b: BitmapView, scale: int, x: int, y: int)
    requires
        0 <= x < b.width * scale,
        0 <= y < b.height * scale,
    ensures
        scaled(b, scale).wf(),
        scaled(b, scale).at(x, y) == b.at(x / scale, y / scale),
{
    picture_cells(
        b.width * scale,
        b.height * scale,
        |i: int, j: int| b.at(i / scale, j / scale),
        x,
        y,
    );
}

/// Every row of a barcode between the free rows shows the same bars, and the
/// free rows are light.
pub proof fn barcode_cells(
    bars: BitmapView,
    height: int,
    module_width: int,
    position: HriPosition,
    x: int,
    y: int,
)
    requires
        0 <= x < bars.width * module_width,
        0 <= y < rows_above(position) + height + rows_below(position),
    ensures
        ({
            let top = rows_above(position);
            barcode_picture(bars, height, module_width, position).at(x, y) == (top <= y < top
                + height && bars.at(x / module_width, 0))
        }),
{
    let top = rows_above(position);
    picture_cells(
        bars.width * module_width,
        top + height + rows_below(position),
        |i: int, j: int| top <= j < top + height && bars.at(i / module_width, 0),
        x,
        y,
    );
}

impl Bitmap {
    /// The picture with all cells `scale` times as wide and as high.
    pub fn scale(&self, scale: usize) -> (r: Bitmap)
        requires
            self@.wf(),
            fits(self.width * scale, self.height * scale),
        ensures
            r@ == scaled(self@, scale as int),
            r@.wf(),
    {
        let width: usize = self.width * scale;
        let height: usize = self.height * scale;
        let total: usize = width * height;
        let mut dark: Vec<bool> = Vec::new();
        let ghost goal = scaled(self@, scale as int).dark;
        let mut p: usize = 0;
        while p < total
            invariant
                self@.wf(),
                width == self.width * scale,
                height == self.height * scale,
                total == width * height,
                goal == scaled(self@, scale as int).dark,
                goal.len() == total,
                p <= total,
                dark@ == goal.take(p as int),
            decreases total - p,
        {
            proof {
                lemma_cell(width as int, height as int, p as int);
                lemma_source_cell(
                    self@,
                    scale as int,
                    p as int % width as int,
                    p as int / width as int,
                );
            }
            let x: usize = (p % width) / scale;
            let y: usize = (p / width) / scale;
            assert(y * self.width + x < self.dark@.len());
            assert(self.dark@.len() == self.dark.len());
            assert(0 <= y * self.width) by (nonlinear_arith);
            let cell: bool = self.dark[y * self.width + x];
            dark.push(cell);
            p += 1;
            assert(dark@ =~= goal.take(p as int));
        }
        assert(goal.take(goal.len() as int) =~= goal);
        Bitmap { width, height, dark }
    }
}

proof fn lemma_source_cell(b: BitmapView, scale: int, x: int, y: int)
    requires
        b.wf(),
        0 <= scale,
        0 <= x < b.width * scale,
        0 <= y < b.height * scale,
    ensures
        0 < scale,
        0 <= x / scale < b.width,
        0 <= y / scale < b.height,
        0 <= (y / scale) * b.width + x / scale < b.dark.len(),
{
    assert(scale != 0) by (nonlinear_arith)
        requires
            0 <= x < b.width * scale,
    ;
    assert(b.width * scale == scale * b.width) by (nonlinear_arith);
    assert(b.height * scale == scale * b.height) by (nonlinear_arith);
    lemma_cell(scale, b.width, x);
    lemma_cell(scale, b.height, y);
    let row = y / scale;
    assert(0 <= row * b.width) by (nonlinear_arith)
        requires
            0 <= row,
            0 <= b.width,
    ;
    assert((row + 1) * b.width <= b.height * b.width) by (nonlinear_arith)
        requires
            row + 1 <= b.height,
            0 <= b.width,
    ;
    assert((row + 1) * b.width == row * b.width + b.width) by (nonlinear_arith);
    assert(b.height * b.width == b.width * b.height) by (nonlinear_arith);
}

/// Whether a picture of `width` by `height` cells fits in memory once all its
/// cells are `x_scale` times as wide and `y_scale` times as high.
fn scaled_fits(width: usize, x_scale: usize, height: usize, y_scale: usize) -> (r: bool)
    ensures
        r == fits(width * x_scale, height * y_scale),
{
    match (product(width, x_scale), product(height, y_scale)) {
        (Some(w), Some(h)) => match product(w, h) {
            Some(area) => area <= usize::MAX / 8,
            None => false,
        },
        _ => false,
    }
}

/// The product, where it is a machine value.
pub(crate) fn product(a: usize, b: usize) -> (r: Option<usize>)
    ensures
        match r {
            Some(c) => c == a * b,
            None => a * b > usize::MAX,
        },
{
    if a == 0 {
        assert(a * b == 0) by (nonlinear_arith)
            requires
                a == 0,
        ;
        return Some(0);
    }
    let most: usize = usize::MAX / a;
    proof {
        lemma_fundamental_div_mod(usize::MAX as int, a as int);
        assert(b <= most ==> a * b <= a * most) by (nonlinear_arith);
        assert(b > most ==> a * b >= a * most + a) by (nonlinear_arith);
        assert(0 <= a * b) by (nonlinear_arith);
    }
    if b <= most {
        Some(a * b)
    } else {
        None
    }
}

impl Bitmap {
    /// The picture with all cells `scale` times as wide and as high, or `None`
    /// where it would not fit in memory.
    pub fn try_scale(&self, scale: usize) -> (r: Option<Bitmap>)
        requires
            self@.wf(),
        ensures
            match r {
                Some(b) => {
                    &&& fits(self.width * scale, self.height * scale)
                    &&& b@ == scaled(self@, scale as int)
                    &&& b@.wf()
                },
                None => !fits(self.width * scale, self.height * scale),
            },
    {
        if scaled_fits(self.width, scale, self.height, scale) {
            Some(self.scale(scale))
        } else {
            None
        }
    }

    /// The barcode whose bars are the first row of this picture, or `None` where
    /// it would not fit in memory.
    pub fn barcode(&self, height: u8, module_width: u8, position: HriPosition) -> (r: Option<
        Bitmap,
    >)
        requires
            self@.wf(),
            self.height >= 1,
        ensures
            ({
                let goal = barcode_picture(
                    self@,
                    height as int,
                    module_width as int,
                    position,
                );
                match r {
                    Some(b) => fits(goal.width, goal.height) && b@ == goal && b@.wf(),
                    None => !fits(goal.width, goal.height),
                }
            }),
    {
        let top: usize = if position.is_above() {
            HRI_LINE_HEIGHT
        } else {
            0
        };
        let bottom: usize = if position.is_below() {
            HRI_LINE_HEIGHT
        } else {
            0
        };
        let rows: usize = top + height as usize + bottom;
        let scale: usize = module_width as usize;
        let ghost goal = barcode_picture(self@, height as int, module_width as int, position);
        if !scaled_fits(self.width, scale, rows, 1) {
            return None;
        }
        let width: usize = self.width * scale;
        let total: usize = width * rows;
        let mut dark: Vec<bool> = Vec::new();
        let mut p: usize = 0;
        while p < total
            invariant
                self@.wf(),
                self.height >= 1,
                width == self.width * scale,
                scale == module_width,
                total == width * rows,
                top == rows_above(position),
                rows == goal.height,
                width == goal.width,
                top + height <= rows <= 1000,
                goal == barcode_picture(self@, height as int, module_width as int, position),
                goal.dark.len() == total,
                p <= total,
                dark@ == goal.dark.take(p as int),
            decreases total - p,
        {
            proof {
                lemma_cell(width as int, rows as int, p as int);
                lemma_first_row(self@, scale as int, p as int % width as int);
            }
            let x: usize = (p % width) / scale;
            let y: usize = p / width;
            let cell: bool = top <= y && y < top + height as usize && self.dark[x];
            dark.push(cell);
            p += 1;
            assert(dark@ =~= goal.dark.take(p as int));
        }
        assert(goal.dark.take(goal.dark.len() as int) =~= goal.dark);
        Some(Bitmap { width, height: rows, dark })
    }
}

proof fn lemma_first_row(b: BitmapView, scale: int, x: int)
    requires
        b.wf(),
        b.height >= 1,
        0 <= scale,
        0 <= x < b.width * scale,
    ensures
        0 < scale,
        0 <= x / scale < b.width,
        b.width <= b.dark.len(),
{
    assert(scale != 0) by (nonlinear_arith)
        requires
            0 <= x < b.width * scale,
    ;
    assert(b.width * scale == scale * b.width) by (nonlinear_arith);
    lemma_cell(scale, b.width, x);
    assert(b.width <= b.width * b.height) by (nonlinear_arith)
        requires
            b.height >= 1,
            b.width >= 0,
    ;
}

} // verus!
