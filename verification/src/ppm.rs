use vstd::prelude::*;

verus! {

/// The header of a binary PPM image of the 240x160 screen with 8-bit channels:
/// `P6`, the size and the largest channel value, each ended by a newline.
pub open spec fn ppm_header() -> Seq<u8> {
    seq![
        0x50u8, 0x36, 0x0A, 0x32, 0x34, 0x30, 0x20, 0x31, 0x36, 0x30, 0x0A, 0x32, 0x35, 0x35, 0x0A,
    ]
}

/// Byte `k` of the pixel data: the red, green and blue bytes of each colour
/// in turn (red is the low byte of a colour).
pub open spec fn ppm_pixel_byte(fb: Seq<u32>, k: int) -> u8 {
    let px = fb[k / 3];
    let c = k % 3;
    if c == 0 {
        (px & 0xFF) as u8
    } else if c == 1 {
        ((px >> 8u32) & 0xFF) as u8
    } else {
        ((px >> 16u32) & 0xFF) as u8
    }
}

/// The frame buffer as a binary PPM image: the header, then three bytes per
/// pixel.
pub open spec fn ppm_spec(fb: Seq<u32>) -> Seq<u8> {
    ppm_header() + Seq::new(3 * fb.len(), |k: int| ppm_pixel_byte(fb, k))
}

/// Encodes a frame buffer as a binary PPM image.
pub fn ppm_image(fb: &[u32]) -> (r: Vec<u8>)
    requires
        15 + 3 * fb@.len() <= usize::MAX,
    ensures
        r@ == ppm_spec(fb@),
{
    let mut out: Vec<u8> = Vec::new();
    out.push(0x50);
    out.push(0x36);
    out.push(0x0A);
    out.push(0x32);
    out.push(0x34);
    out.push(0x30);
    out.push(0x20);
    out.push(0x31);
    out.push(0x36);
    out.push(0x30);
    out.push(0x0A);
    out.push(0x32);
    out.push(0x35);
    out.push(0x35);
    out.push(0x0A);
    assert(out@ =~= ppm_header());
    let mut i: usize = 0;
    while i < fb.len()
        invariant
            i <= fb@.len(),
            15 + 3 * fb@.len() <= usize::MAX,
            out@ =~= ppm_header() + Seq::new(3 * i as nat, |k: int| ppm_pixel_byte(fb@, k)),
        decreases fb.len() - i,
    {
        let pixel = fb[i];
        out.push((pixel & 0xFF) as u8);
        out.push(((pixel >> 8) & 0xFF) as u8);
        out.push(((pixel >> 16) & 0xFF) as u8);
        proof {
            let n = 3 * i;
            assert(ppm_pixel_byte(fb@, n) == (pixel & 0xFF) as u8);
            assert(ppm_pixel_byte(fb@, n + 1) == ((pixel >> 8u32) & 0xFF) as u8);
            assert(ppm_pixel_byte(fb@, n + 2) == ((pixel >> 16u32) & 0xFF) as u8);
        }
        i += 1;
        assert(out@ =~= ppm_header() + Seq::new(3 * i as nat, |k: int| ppm_pixel_byte(fb@, k)));
    }
    out
}

} // verus!
