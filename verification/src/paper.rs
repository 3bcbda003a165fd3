use vstd::prelude::*;

verus! {

/// Roll width of the receipt paper.
#[derive(Debug, Clone, Copy, PartialEq, Eq, Structural)]
pub enum PaperSize {
    Size58mm,
    Size80mm,
}

/// Dots that one character cell of the default font takes across the paper.
pub const DOTS_PER_CHAR: usize = 12;

impl PaperSize {
    /// Columns of the default font that fit on one line.
    pub open spec fn columns(self) -> nat {
        match self {
            PaperSize::Size58mm => 32,
            PaperSize::Size80mm => 48,
        }
    }

    /// Width of the print head in dots: 384 on 58mm paper, 576 on 80mm paper.
    pub fn width_px(&self) -> (r: usize)
        ensures
            r == self.columns() * DOTS_PER_CHAR,
            r == (match self {
                PaperSize::Size58mm => 384usize,
                PaperSize::Size80mm => 576usize,
            }),
    {
        self.chars_per_line() * DOTS_PER_CHAR
    }

    pub fn chars_per_line(&self) -> (r: usize)
        ensures
            r == self.columns(),
    {
        match self {
            PaperSize::Size58mm => 32,
            PaperSize::Size80mm => 48,
        }
    }

    pub fn label(&self) -> (r: &str)
        ensures
            r@ == (match self {
                PaperSize::Size58mm => "58mm"@,
                PaperSize::Size80mm => "80mm"@,
            }),
    {
        match self {
            PaperSize::Size58mm => "58mm",
            PaperSize::Size80mm => "80mm",
        }
    }
}

} // verus!
