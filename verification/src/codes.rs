//! Byte values of the ESC/POS protocol, and the integers it packs into bytes.

use vstd::prelude::*;

verus! {

pub const SOH: u8 = 0x01;
pub const STX: u8 = 0x02;
pub const ETX: u8 = 0x03;
pub const EOT: u8 = 0x04;
pub const ENQ: u8 = 0x05;
pub const ACK: u8 = 0x06;
pub const BEL: u8 = 0x07;
pub const BS: u8 = 0x08;
pub const HT: u8 = 0x09;
pub const LF: u8 = 0x0A;
pub const VT: u8 = 0x0B;
pub const FF: u8 = 0x0C;
pub const CR: u8 = 0x0D;
pub const SO: u8 = 0x0E;
pub const SI: u8 = 0x0F;
pub const DLE: u8 = 0x10;
pub const DC1: u8 = 0x11;
pub const DC2: u8 = 0x12;
pub const DC3: u8 = 0x13;
pub const DC4: u8 = 0x14;
pub const ETB: u8 = 0x17;
pub const CAN: u8 = 0x18;
pub const ESC: u8 = 0x1B;
pub const FS: u8 = 0x1C;
pub const GS: u8 = 0x1D;
pub const RS: u8 = 0x1E;
pub const DEL: u8 = 0x7F;

/// `DC2 #`: print density of the zj-58 driver.
pub const DC2_DENSITY: u8 = 0x23;

/// `ESC SP`: right-side character spacing.
pub const ESC_CHAR_SPACING: u8 = 0x20;
/// `ESC !`: print mode bits.
pub const ESC_PRINT_MODE: u8 = 0x21;
/// `ESC $`: absolute horizontal position.
pub const ESC_POSITION: u8 = 0x24;
/// `ESC &`: user-defined characters.
pub const ESC_DEFINE_CHARS: u8 = 0x26;
/// `ESC (`: extended commands that carry their own length.
pub const ESC_EXTENDED: u8 = 0x28;
/// `ESC *`: column bit image.
pub const ESC_BIT_IMAGE: u8 = 0x2A;
/// `ESC -`: underline.
pub const ESC_UNDERLINE: u8 = 0x2D;
/// `ESC 2`: default line spacing.
pub const ESC_DEFAULT_SPACING: u8 = 0x32;
/// `ESC 3`: line spacing in dots.
pub const ESC_LINE_SPACING: u8 = 0x33;
/// `ESC <`: return home.
pub const ESC_HOME: u8 = 0x3C;
/// `ESC @`: initialize.
pub const ESC_INITIALIZE: u8 = 0x40;
/// `ESC D`: horizontal tab positions, ended by NUL.
pub const ESC_TAB_STOPS: u8 = 0x44;
/// `ESC E`: bold.
pub const ESC_BOLD: u8 = 0x45;
/// `ESC G`: double strike.
pub const ESC_DOUBLE_STRIKE: u8 = 0x47;
/// `ESC J`: print and feed dots.
pub const ESC_FEED_DOTS: u8 = 0x4A;
/// `ESC K`: single-density bit image.
pub const ESC_IMAGE_K: u8 = 0x4B;
/// `ESC L`: double-density bit image.
pub const ESC_IMAGE_L: u8 = 0x4C;
/// `ESC M`: character font.
pub const ESC_FONT: u8 = 0x4D;
/// `ESC W`: print area in page mode.
pub const ESC_PAGE_AREA: u8 = 0x57;
/// `ESC Y`: high-speed double-density bit image.
pub const ESC_IMAGE_Y: u8 = 0x59;
/// `ESC Z`: quadruple-density bit image.
pub const ESC_IMAGE_Z: u8 = 0x5A;
/// `ESC \`: relative horizontal position.
pub const ESC_MOVE: u8 = 0x5C;
/// `ESC a`: alignment.
pub const ESC_ALIGN: u8 = 0x61;
/// `ESC c`: paper sensor commands.
pub const ESC_SENSOR: u8 = 0x63;
/// `ESC d`: print and feed lines.
pub const ESC_FEED_LINES: u8 = 0x64;
/// `ESC i`: partial cut (obsolete).
pub const ESC_OLD_CUT: u8 = 0x69;
/// `ESC p`: cash drawer pulse.
pub const ESC_DRAWER: u8 = 0x70;
/// `ESC t`: character code table.
pub const ESC_CODE_PAGE: u8 = 0x74;
/// `ESC ~`: print density.
pub const ESC_DENSITY: u8 = 0x7E;

/// `GS !`: character size.
pub const GS_CHAR_SIZE: u8 = 0x21;
/// `GS $`: absolute vertical position.
pub const GS_VERTICAL: u8 = 0x24;
/// `GS (`: extended commands.
pub const GS_EXTENDED: u8 = 0x28;
/// `GS 8`: extended commands with a four-byte length.
pub const GS_EXTENDED_LONG: u8 = 0x38;
/// `GS B`: white on black.
pub const GS_INVERT: u8 = 0x42;
/// `GS H`: position of the human readable text of barcodes.
pub const GS_HRI: u8 = 0x48;
/// `GS I`: transmit printer ID.
pub const GS_IDENTIFY: u8 = 0x49;
/// `GS L`: left margin.
pub const GS_LEFT_MARGIN: u8 = 0x4C;
/// `GS V`: cut paper.
pub const GS_CUT: u8 = 0x56;
/// `GS W`: print area width.
pub const GS_AREA_WIDTH: u8 = 0x57;
/// `GS a`: automatic status back.
pub const GS_ASB: u8 = 0x61;
/// `GS h`: barcode height.
pub const GS_BARCODE_HEIGHT: u8 = 0x68;
/// `GS k`: print barcode.
pub const GS_BARCODE: u8 = 0x6B;
/// `GS r`: transmit status.
pub const GS_STATUS: u8 = 0x72;
/// `GS v`: raster bit image.
pub const GS_RASTER: u8 = 0x76;
/// `GS w`: barcode module width.
pub const GS_MODULE_WIDTH: u8 = 0x77;
/// `GS 8 L`: raster graphics.
pub const GS_8_GRAPHICS: u8 = 0x4C;
/// `GS ( k`: two-dimensional symbols.
pub const GS_PAREN_SYMBOL: u8 = 0x6B;

/// Symbol families of `GS ( k`.
pub const SYMBOL_PDF417: u8 = 48;
pub const SYMBOL_QR: u8 = 49;
pub const SYMBOL_DATAMATRIX: u8 = 50;

/// `FS !`: print mode of wide characters.
pub const FS_PRINT_MODE: u8 = 0x21;
/// `FS &`: select wide characters.
pub const FS_WIDE_ON: u8 = 0x26;
/// `FS (`: extended commands.
pub const FS_EXTENDED: u8 = 0x28;
/// `FS -`: underline of wide characters.
pub const FS_UNDERLINE: u8 = 0x2D;
/// `FS .`: cancel wide characters.
pub const FS_WIDE_OFF: u8 = 0x2E;
/// `FS C`: wide character code system.
pub const FS_CODE_SYSTEM: u8 = 0x43;
/// `FS S`: wide character spacing.
pub const FS_SPACING: u8 = 0x53;
/// `FS g`: NV user memory.
pub const FS_MEMORY: u8 = 0x67;
/// `FS p`: print NV bit image.
pub const FS_PRINT_NV: u8 = 0x70;
/// `FS q`: define NV bit images.
pub const FS_DEFINE_NV: u8 = 0x71;

/// The bytes that open a multi-byte command.
pub open spec fn opens_command(b: u8) -> bool {
    b == DLE || b == ESC || b == FS || b == GS
}

/// The bytes that are text: printable ASCII and the upper half of a code page.
pub open spec fn is_text(b: u8) -> bool {
    0x20 <= b <= 0x7E || 0x80 <= b
}

/// Two bytes at `k`, low byte first.
pub open spec fn le16(s: Seq<u8>, k: int) -> int {
    s[k] + 256 * s[k + 1]
}

/// Four bytes at `k`, low byte first.
pub open spec fn le32(s: Seq<u8>, k: int) -> int {
    s[k] + 256 * s[k + 1] + 65536 * s[k + 2] + 16777216 * s[k + 3]
}

/// The smallest number of groups of `d` that hold `x`.
pub open spec fn ceil_div(x: int, d: int) -> int {
    (x + d - 1) / d
}

/// `x - y`, or zero where that would be negative.
pub open spec fn minus(x: int, y: int) -> int {
    if x >= y {
        x - y
    } else {
        0
    }
}

pub open spec fn min_of(x: int, y: int) -> int {
    if x <= y {
        x
    } else {
        y
    }
}

/// `x` brought into the range from `lo` to `hi`.
pub open spec fn clamp_u8(x: u8, lo: u8, hi: u8) -> u8 {
    if x < lo {
        lo
    } else if x > hi {
        hi
    } else {
        x
    }
}

pub fn read_le16(s: &[u8], k: usize) -> (r: usize)
    requires
        k + 1 < s.len(),
    ensures
        r == le16(s@, k as int),
        r <= 0xFFFF,
{
    s[k] as usize + 256 * s[k + 1] as usize
}

pub fn read_le32(s: &[u8], k: usize) -> (r: usize)
    requires
        k + 3 < s.len(),
    ensures
        r == le32(s@, k as int),
        r <= 0xFFFF_FFFF,
{
    s[k] as usize + 256 * s[k + 1] as usize + 65536 * s[k + 2] as usize + 16777216 * s[k
        + 3] as usize
}

pub(crate) fn min_usize(x: usize, y: usize) -> (r: usize)
    ensures
        r == min_of(x as int, y as int),
{
    if x <= y {
        x
    } else {
        y
    }
}

pub(crate) fn minus_usize(x: usize, y: usize) -> (r: usize)
    ensures
        r == minus(x as int, y as int),
{
    if x >= y {
        x - y
    } else {
        0
    }
}

pub(crate) fn clamp_byte(x: u8, lo: u8, hi: u8) -> (r: u8)
    ensures
        r == clamp_u8(x, lo, hi),
{
    if x < lo {
        lo
    } else if x > hi {
        hi
    } else {
        x
    }
}

/// A copy of the bytes from `from` up to `to`.
pub fn copy_range(s: &[u8], from: usize, to: usize) -> (r: Vec<u8>)
    requires
        from <= to <= s.len(),
    ensures
        r@ == s@.subrange(from as int, to as int),
{
    vstd::slice::slice_to_vec(vstd::slice::slice_subrange(s, from, to))
}

} // verus!
