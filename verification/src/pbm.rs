//! Files that raster images are dumped to for inspection.

use vstd::prelude::*;
use crate::codepage::{all_ascii, ascii_chars};
use crate::codes::LF;
use crate::model::DumpView;
use crate::renderer::RasterDump;

verus! {

/// The decimal digits of a number in ASCII.
pub open spec fn decimal(n: nat) -> Seq<u8>
    decreases n,
{
    if n < 10 {
        seq![(0x30 + n) as u8]
    } else {
        decimal(n / 10).push((0x30 + n % 10) as u8)
    }
}

/// The number that decimal digits stand for.
pub open spec fn decimal_value(digits: Seq<u8>) -> int
    decreases digits.len(),
{
    if digits.len() == 0 {
        0
    } else {
        10 * decimal_value(digits.drop_last()) + (digits.last() - 0x30)
    }
}

/// The digits of a number stand for it.
pub proof fn decimal_stands_for(n: nat)
    ensures
        decimal_value(decimal(n)) == n,
        all_ascii(decimal(n)),
    decreases n,
{
    if n < 10 {
        let d = decimal(n);
        assert(d.drop_last() =~= Seq::empty());
        assert(decimal_value(d.drop_last()) == 0);
    } else {
        decimal_stands_for(n / 10);
        assert(decimal(n).drop_last() =~= decimal(n / 10));
    }
}

/// The bytes of a binary PBM file.
pub open spec fn pbm_bytes(dump: DumpView) -> Seq<u8> {
    seq![0x50u8, 0x34u8, LF] + decimal(dump.width as nat) + seq![0x20u8] + decimal(
        dump.height as nat,
    ) + seq![LF] + dump.data
}

/// The name of the file that an image is dumped to.
pub open spec fn pbm_name(dump: DumpView) -> Seq<char> {
    "raster_"@ + ascii_chars(decimal(dump.width as nat)) + "x"@ + ascii_chars(
        decimal(dump.height as nat),
    ) + ".pbm"@
}

fn decimal_digits(n: usize) -> (r: Vec<u8>)
    ensures
        r@ == decimal(n as nat),
    decreases n,
{
    if n < 10 {
        let mut digits: Vec<u8> = Vec::new();
        digits.push(0x30 + n as u8);
        assert(digits@ =~= decimal(n as nat));
        digits
    } else {
        let mut digits = decimal_digits(n / 10);
        digits.push(0x30 + (n % 10) as u8);
        digits
    }
}

fn append_ascii(text: &mut String, bytes: &Vec<u8>)
    ensures
        final(text)@ == old(text)@ + ascii_chars(bytes@),
{
    let mut k: usize = 0;
    assert(old(text)@ + ascii_chars(bytes@.take(0)) =~= old(text)@);
    while k < bytes.len()
        invariant
            k <= bytes.len(),
            text@ == old(text)@ + ascii_chars(bytes@.take(k as int)),
        decreases bytes.len() - k,
    {
        text.push(bytes[k] as char);
        k += 1;
        assert(text@ =~= old(text)@ + ascii_chars(bytes@.take(k as int)));
    }
    assert(bytes@.take(k as int) =~= bytes@);
}

impl RasterDump {
    /// The image as a binary PBM file.
    pub fn pbm_file(&self) -> (r: Vec<u8>)
        ensures
            r@ == pbm_bytes(self@),
    {
        let magic: [u8; 3] = [0x50, 0x34, LF];
        let mut file: Vec<u8> = Vec::new();
        file.extend_from_slice(&magic);
        let mut width = decimal_digits(self.width);
        file.append(&mut width);
        file.push(0x20);
        let mut height = decimal_digits(self.height);
        file.append(&mut height);
        file.push(LF);
        file.extend_from_slice(self.data.as_slice());
        assert(file@ =~= pbm_bytes(self@));
        file
    }

    /// The name of the file for the image.
    pub fn file_name(&self) -> (r: String)
        ensures
            r@ == pbm_name(self@),
    {
        let mut name = "raster_".to_string();
        let width = decimal_digits(self.width);
        append_ascii(&mut name, &width);
        name.append("x");
        let height = decimal_digits(self.height);
        append_ascii(&mut name, &height);
        name.append(".pbm");
        name
    }
}

} // verus!
