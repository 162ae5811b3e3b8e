use vstd::prelude::*;

verus! {

/// The ASCII digits of `n` in base ten, most significant first, without
/// leading zeros (`0` is the single digit `0`).
pub open spec fn decimal(n: nat) -> Seq<u8>
    decreases n,
{
    if n < 10 {
        seq![(48 + n) as u8]
    } else {
        decimal(n / 10).push((48 + n % 10) as u8)
    }
}

/// The ASCII space.
pub const SPACE: u8 = 32;

/// The ASCII line feed.
pub const NEWLINE: u8 = 10;

/// The largest channel value of the images written here.
pub const MAX_CHANNEL: u32 = 255;

/// The magic number `P3` that opens a plain-text PPM image, in ASCII.
pub open spec fn magic() -> Seq<u8> {
    seq![80u8, 51u8]
}

/// The header of a plain-text PPM image: magic number, width, height and the
/// largest channel value, each followed by a separator.
pub open spec fn header_bytes(width: nat, height: nat) -> Seq<u8> {
    magic() + seq![NEWLINE] + decimal(width) + seq![SPACE] + decimal(height) + seq![NEWLINE]
        + decimal(MAX_CHANNEL as nat) + seq![NEWLINE]
}

/// One pixel of a plain-text PPM image: its three channels in decimal,
/// separated by spaces, and a line break.
pub open spec fn pixel_bytes(r: nat, g: nat, b: nat) -> Seq<u8> {
    decimal(r) + seq![SPACE] + decimal(g) + seq![SPACE] + decimal(b) + seq![NEWLINE]
}

/// The pixel lines of `pixels`, one after the other, in the order given.
pub open spec fn pixels_bytes(pixels: Seq<(u8, u8, u8)>) -> Seq<u8>
    decreases pixels.len(),
{
    if pixels.len() == 0 {
        Seq::empty()
    } else {
        let (r, g, b) = pixels.last();
        pixels_bytes(pixels.drop_last()) + pixel_bytes(r as nat, g as nat, b as nat)
    }
}

/// Appends the decimal digits of `n` to `out`.
pub fn push_decimal(out: &mut Vec<u8>, n: u32)
    ensures
        final(out)@ == old(out)@ + decimal(n as nat),
    decreases n,
{
    if n >= 10 {
        push_decimal(out, n / 10);
    }
    out.push(48 + (n % 10) as u8);
    proof {
        if n < 10 {
            assert(decimal(n as nat) =~= seq![(48 + n) as u8]);
        } else {
            assert(decimal(n as nat) =~= decimal((n / 10) as nat).push((48 + n % 10) as u8));
        }
    }
}

/// The writer of plain-text (P3) PPM images, with channel values up to 255.
pub struct Ppm {}

impl Ppm {
    /// The header that opens an image of `width` columns and `height` rows.
    pub fn header(width: u32, height: u32) -> (r: Vec<u8>)
        ensures
            r@ == header_bytes(width as nat, height as nat),
    {
        let mut out: Vec<u8> = Vec::new();
        out.push(80);
        out.push(51);
        out.push(NEWLINE);
        push_decimal(&mut out, width);
        out.push(SPACE);
        push_decimal(&mut out, height);
        out.push(NEWLINE);
        push_decimal(&mut out, MAX_CHANNEL);
        out.push(NEWLINE);
        assert(out@ =~= header_bytes(width as nat, height as nat));
        out
    }

    /// The line that gives one pixel of colour `(r, g, b)`.
    pub fn pixel_line(r: u8, g: u8, b: u8) -> (line: Vec<u8>)
        ensures
            line@ == pixel_bytes(r as nat, g as nat, b as nat),
    {
        let mut out: Vec<u8> = Vec::new();
        push_decimal(&mut out, r as u32);
        out.push(SPACE);
        push_decimal(&mut out, g as u32);
        out.push(SPACE);
        push_decimal(&mut out, b as u32);
        out.push(NEWLINE);
        assert(out@ =~= pixel_bytes(r as nat, g as nat, b as nat));
        out
    }

    /// The whole image: the header, then one line per pixel in the order of
    /// `pixels`, which lists the rows from the top and each row from the left.
    pub fn encode(width: u32, height: u32, pixels: &Vec<(u8, u8, u8)>) -> (r: Vec<u8>)
        ensures
            r@ == header_bytes(width as nat, height as nat) + pixels_bytes(pixels@),
    {
        let mut out = Self::header(width, height);
        let mut i: usize = 0;
        while i < pixels.len()
            invariant
                0 <= i <= pixels@.len(),
                out@ == header_bytes(width as nat, height as nat) + pixels_bytes(pixels@.take(i as int)),
            decreases pixels@.len() - i,
        {
            let (r, g, b) = pixels[i];
            let mut line = Self::pixel_line(r, g, b);
            out.append(&mut line);
            proof {
                assert(pixels@.take(i + 1).drop_last() =~= pixels@.take(i as int));
                assert(pixels@.take(i + 1).last() == pixels@[i as int]);
            }
            i = i + 1;
            assert(out@ =~= header_bytes(width as nat, height as nat) + pixels_bytes(pixels@.take(i as int)));
        }
        assert(pixels@.take(i as int) =~= pixels@);
        out
    }
}

} // verus!
