use vstd::prelude::*;

use crate::bits::{group_bounds, le16, from_le16, lemma_low_bits_mod, sext28, sign_extend_28};

verus! {

broadcast use group_bounds;

#[derive(Clone, Copy)]
pub struct BgAffine {
    pub pa: i16,
    pub pb: i16,
    pub pc: i16,
    pub pd: i16,
    pub ref_x: u32,
    pub ref_y: u32,
    pub internal_x: i32,
    pub internal_y: i32,
}

impl BgAffine {
    pub open spec fn initial() -> BgAffine {
        BgAffine {
            pa: 0x100,
            pb: 0,
            pc: 0,
            pd: 0x100,
            ref_x: 0,
            ref_y: 0,
            internal_x: 0,
            internal_y: 0,
        }
    }

    pub fn new() -> (a: Self)
        ensures
            a == BgAffine::initial(),
    {
        Self { pa: 0x100, pb: 0, pc: 0, pd: 0x100, ref_x: 0, ref_y: 0, internal_x: 0, internal_y: 0 }
    }
}

pub struct Ppu {
    pub dispcnt: u16,
    pub green_swap: u16,
    pub dispstat: u16,
    pub bgcnt: [u16; 4],
    pub bghofs: [u16; 4],
    pub bgvofs: [u16; 4],
    pub bg_affine: [BgAffine; 2],
    pub win0h: u16,
    pub win1h: u16,
    pub win0v: u16,
    pub win1v: u16,
    pub winin: u16,
    pub winout: u16,
    pub mosaic: u16,
    pub bldcnt: u16,
    pub bldalpha: u16,
    pub bldy: u16,
}

/// The width and height of a sprite of shape `shape` and size `size`.
pub open spec fn sprite_size_spec(shape: u16, size: u16) -> (u32, u32) {
    if shape == 0 {
        if size == 0 {
            (8, 8)
        } else if size == 1 {
            (16, 16)
        } else if size == 2 {
            (32, 32)
        } else if size == 3 {
            (64, 64)
        } else {
            (8, 8)
        }
    } else if shape == 1 {
        if size == 0 {
            (16, 8)
        } else if size == 1 {
            (32, 8)
        } else if size == 2 {
            (32, 16)
        } else if size == 3 {
            (64, 32)
        } else {
            (8, 8)
        }
    } else if shape == 2 {
        if size == 0 {
            (8, 16)
        } else if size == 1 {
            (8, 32)
        } else if size == 2 {
            (16, 32)
        } else if size == 3 {
            (32, 64)
        } else {
            (8, 8)
        }
    } else {
        (8, 8)
    }
}

fn sprite_size(shape: u16, size: u16) -> (r: (u32, u32))
    ensures
        r == sprite_size_spec(shape, size),
        8 <= r.0 <= 64,
        8 <= r.1 <= 64,
{
    if shape == 0 {
        if size == 0 {
            (8, 8)
        } else if size == 1 {
            (16, 16)
        } else if size == 2 {
            (32, 32)
        } else if size == 3 {
            (64, 64)
        } else {
            (8, 8)
        }
    } else if shape == 1 {
        if size == 0 {
            (16, 8)
        } else if size == 1 {
            (32, 8)
        } else if size == 2 {
            (32, 16)
        } else if size == 3 {
            (64, 32)
        } else {
            (8, 8)
        }
    } else if shape == 2 {
        if size == 0 {
            (8, 16)
        } else if size == 1 {
            (8, 32)
        } else if size == 2 {
            (16, 32)
        } else if size == 3 {
            (32, 64)
        } else {
            (8, 8)
        }
    } else {
        (8, 8)
    }
}

/// A 5-bit channel widened to 8 bits, its top bits repeated below.
pub open spec fn expand5(c: u32) -> u32 {
    (c << 3u32) | (c >> 2u32)
}

/// An opaque 32-bit colour (red in the low byte) made of three 5-bit channels.
pub open spec fn pack_rgb(r: u32, g: u32, b: u32) -> u32 {
    0xFF000000u32 | (expand5(b) << 16u32) | (expand5(g) << 8u32) | expand5(r)
}

/// The 32-bit colour of a 15-bit BGR555 colour.
pub open spec fn rgb5_spec(c: u16) -> u32 {
    pack_rgb((c & 0x1F) as u32, ((c >> 5u16) & 0x1F) as u32, ((c >> 10u16) & 0x1F) as u32)
}

pub fn color_from_rgb5(c: u16) -> (r: u32)
    ensures
        r == rgb5_spec(c),
{
    let r5 = (c & 0x1F) as u32;
    let g5 = ((c >> 5) & 0x1F) as u32;
    let b5 = ((c >> 10) & 0x1F) as u32;
    let r = (r5 << 3) | (r5 >> 2);
    let g = (g5 << 3) | (g5 >> 2);
    let b = (b5 << 3) | (b5 >> 2);
    0xFF000000 | (b << 16) | (g << 8) | r
}

/// The colour of palette entry `idx`; opaque black past the end of the palette.
pub open spec fn palette_color_spec(palette: Seq<u8>, idx: int) -> u32 {
    let addr = idx * 2;
    if addr + 1 >= palette.len() {
        0xFF000000
    } else {
        rgb5_spec(le16(palette[addr], palette[addr + 1]))
    }
}

fn palette_color(palette: &[u8], idx: usize) -> (r: u32)
    requires
        idx * 2 + 1 <= usize::MAX,
    ensures
        r == palette_color_spec(palette@, idx as int),
{
    let addr = idx * 2;
    if addr + 1 >= palette.len() {
        return 0xFF000000;
    }
    let c = from_le16(palette[addr], palette[addr + 1]);
    color_from_rgb5(c)
}

/// Whether `layer` (0-3 backgrounds, 4 sprites, 5 backdrop) is a first (or, with
/// `second`, a second) target of colour effects in `bldcnt`.
pub open spec fn blend_target_spec(bldcnt: u16, layer: u8, second: bool) -> bool {
    if layer > 5 {
        false
    } else {
        let bits = if second { (bldcnt >> 8u16) as u8 } else { bldcnt as u8 };
        bits & ((1u8 << layer) as u8) != 0
    }
}

fn is_blend_target(bldcnt: u16, layer: u8, second: bool) -> (r: bool)
    ensures
        r == blend_target_spec(bldcnt, layer, second),
{
    if layer > 5 {
        return false;
    }
    let bits = if second { (bldcnt >> 8) as u8 } else { bldcnt as u8 };
    bits & (1u8 << layer) != 0
}

/// The 5-bit channels of a 32-bit colour.
pub open spec fn chan(c: u32, shift: u32) -> u32 {
    ((c >> shift) & 0xFF) >> 3u32
}

/// `min(x, 31)`.
pub open spec fn min31(x: int) -> u32 {
    if x > 31 { 31 } else { x as u32 }
}

/// The weighted sum `(top * eva + bot * evb) / 16` of each channel, limited to 31.
pub open spec fn alpha_blend_spec(top: u32, bot: u32, eva: u32, evb: u32) -> u32 {
    pack_rgb(
        min31((chan(top, 0) * eva + chan(bot, 0) * evb) / 16),
        min31((chan(top, 8) * eva + chan(bot, 8) * evb) / 16),
        min31((chan(top, 16) * eva + chan(bot, 16) * evb) / 16),
    )
}

/// Each channel moved `evy` sixteenths of the way to white.
pub open spec fn brighten_spec(color: u32, evy: u32) -> u32 {
    let r = chan(color, 0);
    let g = chan(color, 8);
    let b = chan(color, 16);
    pack_rgb(
        min31(r + (31 - r) * evy / 16),
        min31(g + (31 - g) * evy / 16),
        min31(b + (31 - b) * evy / 16),
    )
}

/// Each channel moved `evy` sixteenths of the way to black.
pub open spec fn darken_spec(color: u32, evy: u32) -> u32 {
    let r = chan(color, 0);
    let g = chan(color, 8);
    let b = chan(color, 16);
    pack_rgb((r - r * evy / 16) as u32, (g - g * evy / 16) as u32, (b - b * evy / 16) as u32)
}

proof fn lemma_chan_bound(c: u32, shift: u32)
    ensures
        chan(c, shift) <= 31,
{
    let x = (c >> shift) & 0xFF;
    assert(x <= 0xFF);
    assert(x >> 3u32 <= 31) by (bit_vector)
        requires
            x <= 0xFF,
    ;
}

fn chan_exec(c: u32, shift: u32) -> (r: u32)
    requires
        shift < 32,
    ensures
        r == chan(c, shift),
        r <= 31,
{
    proof {
        lemma_chan_bound(c, shift);
    }
    ((c >> shift) & 0xFF) >> 3
}

fn pack_exec(r: u32, g: u32, b: u32) -> (c: u32)
    requires
        r <= 31,
        g <= 31,
        b <= 31,
    ensures
        c == pack_rgb(r, g, b),
{
    0xFF000000 | (((b << 3) | (b >> 2)) << 16) | (((g << 3) | (g >> 2)) << 8) | ((r << 3) | (r
        >> 2))
}

fn alpha_blend(top: u32, bot: u32, eva: u32, evb: u32) -> (r: u32)
    requires
        eva <= 16,
        evb <= 16,
    ensures
        r == alpha_blend_spec(top, bot, eva, evb),
{
    let r1 = chan_exec(top, 0);
    let g1 = chan_exec(top, 8);
    let b1 = chan_exec(top, 16);
    let r2 = chan_exec(bot, 0);
    let g2 = chan_exec(bot, 8);
    let b2 = chan_exec(bot, 16);
    proof {
        assert(r1 * eva <= 31 * 16 && r2 * evb <= 31 * 16 && g1 * eva <= 31 * 16 && g2 * evb
            <= 31 * 16 && b1 * eva <= 31 * 16 && b2 * evb <= 31 * 16) by (nonlinear_arith)
            requires
                r1 <= 31,
                g1 <= 31,
                b1 <= 31,
                r2 <= 31,
                g2 <= 31,
                b2 <= 31,
                eva <= 16,
                evb <= 16,
        ;
    }
    let r = min31_exec((r1 * eva + r2 * evb) / 16);
    let g = min31_exec((g1 * eva + g2 * evb) / 16);
    let b = min31_exec((b1 * eva + b2 * evb) / 16);
    pack_exec(r, g, b)
}

fn min31_exec(x: u32) -> (r: u32)
    ensures
        r == min31(x as int),
        r <= 31,
{
    if x > 31 { 31 } else { x }
}

fn brightness_increase(color: u32, evy: u32) -> (r: u32)
    requires
        evy <= 16,
    ensures
        r == brighten_spec(color, evy),
{
    let r = chan_exec(color, 0);
    let g = chan_exec(color, 8);
    let b = chan_exec(color, 16);
    proof {
        assert((31 - r) * evy <= 31 * 16 && (31 - g) * evy <= 31 * 16 && (31 - b) * evy <= 31
            * 16) by (nonlinear_arith)
            requires
                r <= 31,
                g <= 31,
                b <= 31,
                evy <= 16,
        ;
    }
    let r = min31_exec(r + (31 - r) * evy / 16);
    let g = min31_exec(g + (31 - g) * evy / 16);
    let b = min31_exec(b + (31 - b) * evy / 16);
    pack_exec(r, g, b)
}

fn brightness_decrease(color: u32, evy: u32) -> (r: u32)
    requires
        evy <= 16,
    ensures
        r == darken_spec(color, evy),
{
    let r = chan_exec(color, 0);
    let g = chan_exec(color, 8);
    let b = chan_exec(color, 16);
    proof {
        assert(r * evy / 16 <= r && g * evy / 16 <= g && b * evy / 16 <= b) by (nonlinear_arith)
            requires
                r <= 31,
                g <= 31,
                b <= 31,
                evy <= 16,
        ;
    }
    let r = r - r * evy / 16;
    let g = g - g * evy / 16;
    let b = b - b * evy / 16;
    pack_exec(r, g, b)
}

/// Whether coordinate `v` lies in the window span `lo..hi`, which wraps around
/// when `lo > hi`.
pub open spec fn in_span(v: u16, lo: u16, hi: u16) -> bool {
    if lo <= hi { v >= lo && v < hi } else { v >= lo || v < hi }
}

/// The layer-enable bits that apply at pixel `(x, y)`: those of window 0, else
/// of window 1, else the outside bits.
pub open spec fn window_flags_spec(p: Ppu, x: u16, y: u16) -> u16 {
    if p.dispcnt & 0x2000 != 0 && in_span(x, p.win0h >> 8u16, p.win0h & 0xFF) && in_span(
        y,
        p.win0v >> 8u16,
        p.win0v & 0xFF,
    ) {
        p.winin & 0x3F
    } else if p.dispcnt & 0x4000 != 0 && in_span(x, p.win1h >> 8u16, p.win1h & 0xFF) && in_span(
        y,
        p.win1v >> 8u16,
        p.win1v & 0xFF,
    ) {
        (p.winin >> 8u16) & 0x3F
    } else {
        p.winout & 0x3F
    }
}

/// A 32-bit colour keeps its 5-bit channels: expanding a channel and truncating
/// it again gives the channel back, and the colour is opaque.
pub proof fn lemma_rgb5_channels(c: u16)
    ensures
        chan(rgb5_spec(c), 0) == (c & 0x1F) as u32,
        chan(rgb5_spec(c), 8) == ((c >> 5u16) & 0x1F) as u32,
        chan(rgb5_spec(c), 16) == ((c >> 10u16) & 0x1F) as u32,
        rgb5_spec(c) >> 24u32 == 0xFF,
{
    let r = (c & 0x1F) as u32;
    let g = ((c >> 5u16) & 0x1F) as u32;
    let b = ((c >> 10u16) & 0x1F) as u32;
    assert(r <= 31 && g <= 31 && b <= 31);
    assert({
        let v = 0xFF000000u32 | (((b << 3u32) | (b >> 2u32)) << 16u32) | (((g << 3u32) | (g
            >> 2u32)) << 8u32) | ((r << 3u32) | (r >> 2u32));
        &&& ((v >> 0u32) & 0xFF) >> 3u32 == r
        &&& ((v >> 8u32) & 0xFF) >> 3u32 == g
        &&& ((v >> 16u32) & 0xFF) >> 3u32 == b
        &&& v >> 24u32 == 0xFF
    }) by (bit_vector)
        requires
            r <= 31,
            g <= 31,
            b <= 31,
    ;
}

/// The colour index of texel `(tex_x, tex_y)` of a sprite whose first tile is
/// `tile_num`, in one- or two-dimensional tile mapping; 0 past the end of VRAM.
pub open spec fn sprite_pixel_spec(tile_num: int, tex_x: u32, tex_y: u32, obj_w: u32, color_256: bool, mapping_1d: bool, vram: Seq<u8>) -> u8 {
    let tile_x = (tex_x / 8) as int;
    let tile_y = (tex_y / 8) as int;
    let pixel_x = (tex_x % 8) as int;
    let pixel_y = (tex_y % 8) as int;
    let tile_idx: int = if mapping_1d {
        if color_256 {
            tile_num + (tile_y * (obj_w / 8) + tile_x) * 2
        } else {
            tile_num + (tile_y * (obj_w / 8) + tile_x)
        }
    } else {
        if color_256 {
            (tile_num + tile_y * 32 + tile_x * 2) % 0x400
        } else {
            (tile_num + tile_y * 32 + tile_x) % 0x400
        }
    };
    if color_256 {
        let addr = 0x10000 + tile_idx * 32 + pixel_y * 8 + pixel_x;
        if addr < vram.len() { vram[addr] } else { 0 }
    } else {
        let addr = 0x10000 + tile_idx * 32 + pixel_y * 4 + pixel_x / 2;
        if addr < vram.len() {
            if pixel_x % 2 == 1 { vram[addr] >> 4u8 } else { vram[addr] & 0xF }
        } else {
            0
        }
    }
}

/// The 16-bit little-endian value at `i` in OAM.
pub open spec fn oam16(oam: Seq<u8>, i: int) -> u16 {
    le16(oam[i], oam[i + 1])
}

/// The size of sprite `i` as its attributes give it.
pub open spec fn sprite_dims(oam: Seq<u8>, i: int) -> (u32, u32) {
    sprite_size_spec((oam16(oam, i * 8) >> 14u16) & 3, (oam16(oam, i * 8 + 2) >> 14u16) & 3)
}

/// Whether sprite `i` is a rotation/scaling sprite.
pub open spec fn sprite_rot(oam: Seq<u8>, i: int) -> bool {
    oam16(oam, i * 8) & 0x100 != 0
}

/// Whether a rotation/scaling sprite `i` uses a doubled bounding box.
pub open spec fn sprite_double(oam: Seq<u8>, i: int) -> bool {
    sprite_rot(oam, i) && oam16(oam, i * 8) & 0x200 != 0
}

/// The top line of sprite `i`; values from 160 up wrap to negative lines.
pub open spec fn sprite_top(oam: Seq<u8>, i: int) -> int {
    let y = (oam16(oam, i * 8) & 0xFF) as int;
    if y >= 160 { y - 256 } else { y }
}

/// The left column of sprite `i`; values from 240 up wrap to negative columns.
pub open spec fn sprite_left(oam: Seq<u8>, i: int) -> int {
    let x = (oam16(oam, i * 8 + 2) & 0x1FF) as int;
    if x >= 240 { x - 512 } else { x }
}

/// The height of the bounding box of sprite `i`.
pub open spec fn sprite_box_h(oam: Seq<u8>, i: int) -> int {
    if sprite_double(oam, i) { sprite_dims(oam, i).1 * 2 } else { sprite_dims(oam, i).1 as int }
}

/// The width of the bounding box of sprite `i`.
pub open spec fn sprite_box_w(oam: Seq<u8>, i: int) -> int {
    if sprite_double(oam, i) { sprite_dims(oam, i).0 * 2 } else { sprite_dims(oam, i).0 as int }
}

/// Whether sprite `i` is drawn on `line`: it is not disabled, not an object
/// window, and its bounding box covers the line.
pub open spec fn sprite_on_line(oam: Seq<u8>, i: int, line: u16) -> bool {
    let a0 = oam16(oam, i * 8);
    let local_y = line - sprite_top(oam, i);
    &&& !(!sprite_rot(oam, i) && a0 & 0x200 != 0)
    &&& (a0 >> 10u16) & 3 != 3
    &&& 0 <= local_y < sprite_box_h(oam, i)
}

/// An affine parameter of sprite rotation group `g` (`k` = 0..3 for pa..pd).
pub open spec fn sprite_param(oam: Seq<u8>, g: int, k: int) -> int {
    oam16(oam, g * 32 + 6 + k * 8) as i16 as int
}

/// The texel of sprite `i` shown at column `screen_x` of its bounding box on
/// `line`, or `None` when that point falls outside the sprite.
pub open spec fn sprite_texel(oam: Seq<u8>, i: int, line: u16, screen_x: int) -> Option<(int, int)> {
    let (w, h) = sprite_dims(oam, i);
    let a1 = oam16(oam, i * 8 + 2);
    let local_y = line - sprite_top(oam, i);
    if sprite_rot(oam, i) {
        let g = ((a1 >> 9u16) & 0x1F) as int;
        let ix = screen_x - sprite_box_w(oam, i) / 2;
        let iy = local_y - sprite_box_h(oam, i) / 2;
        let tx = (((sprite_param(oam, g, 0) * ix + sprite_param(oam, g, 1) * iy) as i32) >> 8i32) as int + w / 2;
        let ty = (((sprite_param(oam, g, 2) * ix + sprite_param(oam, g, 3) * iy) as i32) >> 8i32) as int + h / 2;
        if tx < 0 || tx >= w || ty < 0 || ty >= h {
            None
        } else {
            Some((tx, ty))
        }
    } else {
        let tx = if a1 & 0x1000 != 0 { w - 1 - screen_x } else { screen_x };
        let ty = if a1 & 0x2000 != 0 { h - 1 - local_y } else { local_y };
        Some((tx, ty))
    }
}

/// What sprite `i` writes at screen column `sx` of `line`: its colour (offset
/// into the sprite palette), priority and semi-transparency; `None` where it
/// leaves the column alone.
pub open spec fn sprite_write(p: Ppu, line: u16, vram: Seq<u8>, oam: Seq<u8>, i: int, sx: int) -> Option<(u16, u8, bool)> {
    let a0 = oam16(oam, i * 8);
    let a2 = oam16(oam, i * 8 + 4);
    let screen_x = sx - sprite_left(oam, i);
    let draw_w = if sprite_rot(oam, i) { sprite_box_w(oam, i) } else { sprite_dims(oam, i).0 as int };
    if !sprite_on_line(oam, i, line) || sx < 0 || sx >= 240 || screen_x < 0 || screen_x >= draw_w {
        None
    } else {
        match sprite_texel(oam, i, line, screen_x) {
            None => None,
            Some((tx, ty)) => {
                let color_256 = a0 & 0x2000 != 0;
                let ci = sprite_pixel_spec(
                    (a2 & 0x3FF) as int,
                    tx as u32,
                    ty as u32,
                    sprite_dims(oam, i).0,
                    color_256,
                    p.dispcnt & 0x40 != 0,
                    vram,
                );
                if ci == 0 {
                    None
                } else {
                    let color = if color_256 {
                        (256 + ci) as u16
                    } else {
                        (256 + ((a2 >> 12u16) & 0xF) * 16 + ci) as u16
                    };
                    Some((color, ((a2 >> 10u16) & 3) as u8, (a0 >> 10u16) & 3 == 1))
                }
            },
        }
    }
}

/// The sprite line after sprite `i` is drawn over it: a sprite pixel replaces
/// the entry when its priority is not lower than the entry's.
pub open spec fn sprite_apply(p: Ppu, line: u16, vram: Seq<u8>, oam: Seq<u8>, i: int, out: Seq<(u16, u8, bool)>) -> Seq<(u16, u8, bool)> {
    Seq::new(
        240,
        |sx: int|
            match sprite_write(p, line, vram, oam, i, sx) {
                Some(w) => if out[sx].1 >= w.1 { w } else { out[sx] },
                None => out[sx],
            },
    )
}

/// Entry `s` of the sprite line after sprite `i` is drawn over `out`.
pub open spec fn apply_at(p: Ppu, line: u16, vram: Seq<u8>, oam: Seq<u8>, i: int, out: Seq<(u16, u8, bool)>, s: int) -> (u16, u8, bool) {
    match sprite_write(p, line, vram, oam, i, s) {
        Some(w) => if out[s].1 >= w.1 { w } else { out[s] },
        None => out[s],
    }
}

/// The sprite line after sprites 127 down to `n` are drawn, in that order.
pub open spec fn sprites_from(p: Ppu, line: u16, vram: Seq<u8>, oam: Seq<u8>, out: Seq<(u16, u8, bool)>, n: int) -> Seq<(u16, u8, bool)>
    decreases 128 - n,
{
    if n >= 128 || n < 0 {
        out
    } else {
        sprite_apply(p, line, vram, oam, n, sprites_from(p, line, vram, oam, out, n + 1))
    }
}

/// The layers seen at one pixel so far: the colour, priority and layer of the
/// top one, and the colour and layer of the one beneath it.
#[derive(Clone, Copy)]
pub struct Stack {
    pub top_color: u32,
    pub top_prio: u8,
    pub top_layer: u8,
    pub second_color: u32,
    pub second_layer: u8,
}

/// Background `b`, whose pixel here is `v`, added to the layer stack: a visible pixel of a
/// higher priority (or equal priority and lower index) goes on top.
pub open spec fn bg_step(p: Ppu, palette: Seq<u8>, v: u16, win: u16, st: Stack, b: int) -> Stack {
    if !bg_enabled(p, b) || win & (1u16 << (b as u16)) == 0 || v == 0x8000 {
        st
    } else {
        let prio = (p.bgcnt@[b] & 3) as u8;
        let color = if p.dispcnt & 7 >= 3 && b == 2 && v & 0x8000 != 0 {
            rgb5_spec(v & 0x7FFF)
        } else {
            palette_color_spec(palette, v as int)
        };
        if prio < st.top_prio || (prio == st.top_prio && b < st.top_layer) {
            Stack {
                top_color: color,
                top_prio: prio,
                top_layer: b as u8,
                second_color: st.top_color,
                second_layer: st.top_layer,
            }
        } else if prio < 4 {
            Stack { second_color: color, second_layer: b as u8, ..st }
        } else {
            st
        }
    }
}

/// The sprite pixel `o` added to the layer stack.
pub open spec fn obj_step(palette: Seq<u8>, o: (u16, u8, bool), win: u16, st: Stack) -> Stack {
    let (ci, prio, _semi) = o;
    if ci != 0x8000 && win & 0x10 != 0 {
        let color = palette_color_spec(palette, ci as int);
        if prio <= st.top_prio {
            Stack {
                top_color: color,
                top_prio: prio,
                top_layer: 4,
                second_color: st.top_color,
                second_layer: st.top_layer,
            }
        } else {
            Stack { second_color: color, second_layer: 4, ..st }
        }
    } else {
        st
    }
}

/// The layer stack at column `x`, starting from the backdrop colour.
pub open spec fn layer_stack(p: Ppu, palette: Seq<u8>, bgs: Seq<Seq<u16>>, obj: Seq<(u16, u8, bool)>, win: u16, x: int) -> Stack {
    let backdrop = palette_color_spec(palette, 0);
    let s0 = Stack { top_color: backdrop, top_prio: 4, top_layer: 5, second_color: backdrop, second_layer: 5 };
    let s1 = bg_step(p, palette, bgs[0][x], win, s0, 0);
    let s2 = bg_step(p, palette, bgs[1][x], win, s1, 1);
    let s3 = bg_step(p, palette, bgs[2][x], win, s2, 2);
    let s4 = bg_step(p, palette, bgs[3][x], win, s3, 3);
    obj_step(palette, obj[x], win, s4)
}

/// The layer-enable bits at column `x` of `line`: all layers when no window is on.
pub open spec fn win_flags_at(p: Ppu, x: int, line: u16) -> u16 {
    if p.dispcnt & 0xE000 != 0 { window_flags_spec(p, x as u16, line) } else { 0x3F }
}

/// `min(v, 16)`.
pub open spec fn min16(v: u16) -> u32 {
    if v > 16 { 16 } else { v as u32 }
}

/// The final colour of a stack: alpha blending of the top layer with the one
/// beneath (always for a semi-transparent sprite on top of a second target), or
/// a brightness change of the top layer, as BLDCNT selects and the window allows.
pub open spec fn blend_spec(p: Ppu, st: Stack, semi: bool, win: u16) -> u32 {
    let mode = (p.bldcnt >> 6u16) & 3;
    let eva = min16(p.bldalpha & 0x1F);
    let evb = min16((p.bldalpha >> 8u16) & 0x1F);
    let evy = min16(p.bldy & 0x1F);
    if win & 0x20 == 0 {
        st.top_color
    } else {
        let first = blend_target_spec(p.bldcnt, st.top_layer, false);
        let second = blend_target_spec(p.bldcnt, st.second_layer, true);
        let semi_obj = st.top_layer == 4 && semi && second;
        if mode == 1 {
            if semi_obj || (first && second) {
                alpha_blend_spec(st.top_color, st.second_color, eva, evb)
            } else {
                st.top_color
            }
        } else if semi_obj {
            alpha_blend_spec(st.top_color, st.second_color, eva, evb)
        } else if mode == 2 && first {
            brighten_spec(st.top_color, evy)
        } else if mode == 3 && first {
            darken_spec(st.top_color, evy)
        } else {
            st.top_color
        }
    }
}

/// The colour of pixel `x` of `line` composed from the background lines and the
/// sprite line.
pub open spec fn compose_pixel(p: Ppu, line: u16, bgs: Seq<Seq<u16>>, obj: Seq<(u16, u8, bool)>, palette: Seq<u8>, x: int) -> u32 {
    let win = win_flags_at(p, x, line);
    blend_spec(p, layer_stack(p, palette, bgs, obj, win, x), obj[x].2, win)
}

/// `fb` with the 240 pixels of row `line` given by `px`.
pub open spec fn with_row(fb: Seq<u32>, line: u16, px: spec_fn(int) -> u32) -> Seq<u32> {
    Seq::new(
        fb.len(),
        |k: int| if line * 240 <= k < line * 240 + 240 { px(k - line * 240) } else { fb[k] },
    )
}

/// The four background lines of `line`.
pub open spec fn bg_lines_spec(p: Ppu, line: u16, vram: Seq<u8>) -> Seq<Seq<u16>> {
    seq![
        bg_line_spec(p, 0, line, vram),
        bg_line_spec(p, 1, line, vram),
        bg_line_spec(p, 2, line, vram),
        bg_line_spec(p, 3, line, vram),
    ]
}

/// The sprite line of `line`: empty unless sprites are on.
pub open spec fn obj_line_spec(p: Ppu, line: u16, vram: Seq<u8>, oam: Seq<u8>) -> Seq<(u16, u8, bool)> {
    let empty = Seq::new(240, |x: int| (0x8000u16, 4u8, false));
    if p.dispcnt & 0x1000 != 0 {
        sprites_from(p, line, vram, oam, empty, 0)
    } else {
        empty
    }
}

/// The affine parameters after a line: the reference point of background 2 moves
/// by (pb, pd) in modes 1 and up when it is on, that of background 3 in mode 2.
pub open spec fn affine_after_line(p: Ppu) -> Seq<BgAffine> {
    let mode = p.dispcnt & 7;
    let a0 = p.bg_affine@[0];
    let a1 = p.bg_affine@[1];
    seq![
        if mode >= 1 && p.dispcnt & 0x400 != 0 {
            BgAffine {
                internal_x: (a0.internal_x + a0.pb) as i32,
                internal_y: (a0.internal_y + a0.pd) as i32,
                ..a0
            }
        } else {
            a0
        },
        if mode == 2 && p.dispcnt & 0x800 != 0 {
            BgAffine {
                internal_x: (a1.internal_x + a1.pb) as i32,
                internal_y: (a1.internal_y + a1.pd) as i32,
                ..a1
            }
        } else {
            a1
        },
    ]
}

/// What a line render needs of the affine parameters: the backgrounds drawn stay
/// in range along the line, and the reference points stay in range when they move.
pub open spec fn render_fits(p: Ppu) -> bool {
    let mode = p.dispcnt & 7;
    let a0 = p.bg_affine@[0];
    let a1 = p.bg_affine@[1];
    &&& ((mode == 1 || mode == 2) && p.dispcnt & 0x400 != 0 ==> affine_fits(a0))
    &&& (mode == 2 && p.dispcnt & 0x800 != 0 ==> affine_fits(a1))
    &&& (mode >= 1 && p.dispcnt & 0x400 != 0 ==> {
        &&& -0x8000_0000 <= a0.internal_x + a0.pb <= 0x7FFF_FFFF
        &&& -0x8000_0000 <= a0.internal_y + a0.pd <= 0x7FFF_FFFF
    })
    &&& (mode == 2 && p.dispcnt & 0x800 != 0 ==> {
        &&& -0x8000_0000 <= a1.internal_x + a1.pb <= 0x7FFF_FFFF
        &&& -0x8000_0000 <= a1.internal_y + a1.pd <= 0x7FFF_FFFF
    })
}

impl Ppu {
    fn get_window_flags(&self, x: u16, y: u16) -> (r: u16)
        ensures
            r == window_flags_spec(*self, x, y),
    {
        if self.dispcnt & 0x2000 != 0 {
            let x1 = (self.win0h >> 8) as u16;
            let x2 = (self.win0h & 0xFF) as u16;
            let y1 = (self.win0v >> 8) as u16;
            let y2 = (self.win0v & 0xFF) as u16;
            let in_x = if x1 <= x2 { x >= x1 && x < x2 } else { x >= x1 || x < x2 };
            let in_y = if y1 <= y2 { y >= y1 && y < y2 } else { y >= y1 || y < y2 };
            if in_x && in_y {
                return self.winin & 0x3F;
            }
        }
        if self.dispcnt & 0x4000 != 0 {
            let x1 = (self.win1h >> 8) as u16;
            let x2 = (self.win1h & 0xFF) as u16;
            let y1 = (self.win1v >> 8) as u16;
            let y2 = (self.win1v & 0xFF) as u16;
            let in_x = if x1 <= x2 { x >= x1 && x < x2 } else { x >= x1 || x < x2 };
            let in_y = if y1 <= y2 { y >= y1 && y < y2 } else { y >= y1 || y < y2 };
            if in_x && in_y {
                return (self.winin >> 8) & 0x3F;
            }
        }
        self.winout & 0x3F
    }
}


/// Applies a per-pixel layer to a line: where the layer has a pixel it replaces
/// the line's entry.
pub open spec fn overlay(base: Seq<u16>, px: spec_fn(int) -> Option<u16>) -> Seq<u16> {
    Seq::new(
        240,
        |x: int|
            match px(x) {
                Some(c) => c,
                None => base[x],
            },
    )
}

/// The map height (`w == false`) or width of text background `bg`, in pixels.
pub open spec fn text_map_dim(p: Ppu, bg: int, w: bool) -> u32 {
    let size = (p.bgcnt@[bg] >> 14u16) & 3;
    if w {
        if size == 1 || size == 3 { 512 } else { 256 }
    } else {
        if size == 2 || size == 3 { 512 } else { 256 }
    }
}

/// The map row, in pixels, that text background `bg` shows on `line`.
pub open spec fn text_row(p: Ppu, bg: int, line: u16) -> u32 {
    let scroll_y = p.bgvofs@[bg] as int;
    let mask = (text_map_dim(p, bg, false) - 1) as u32;
    if p.bgcnt@[bg] & 0x40 != 0 {
        let mh = ((p.mosaic >> 4u16) & 0xF) as int + 1;
        (((line as int / mh) * mh + scroll_y) as u32) & mask
    } else {
        ((line as int + scroll_y) as u32) & mask
    }
}

/// The map column, in pixels, that text background `bg` shows at column `x`.
pub open spec fn text_col(p: Ppu, bg: int, x: int) -> u32 {
    let scroll_x = p.bghofs@[bg] as int;
    let mask = (text_map_dim(p, bg, true) - 1) as u32;
    if p.bgcnt@[bg] & 0x40 != 0 {
        let mw = (p.mosaic & 0xF) as int + 1;
        (((x / mw) * mw + scroll_x) as u32) & mask
    } else {
        ((x + scroll_x) as u32) & mask
    }
}

/// The VRAM offset of the map entry of text background `bg` at map point `(px, y)`.
pub open spec fn text_map_index(p: Ppu, bg: int, y: u32, px: u32) -> int {
    let cnt = p.bgcnt@[bg];
    let size = (cnt >> 14u16) & 3;
    let screen_base = ((cnt >> 8u16) & 0x1F) as int * 2048;
    let tile_row = y / 8;
    let tile_col = px / 8;
    let screen_block: int = if size == 0 {
        0
    } else if size == 1 {
        (tile_col / 32) as int
    } else if size == 2 {
        (tile_row / 32) as int
    } else {
        ((tile_row / 32) * 2 + tile_col / 32) as int
    };
    screen_base + screen_block * 2048 + ((tile_row & 31) * 32 + (tile_col & 31)) as int * 2
}

/// The colour index that the map entry `entry` gives at pixel `(px & 7, y & 7)`
/// of its tile, honouring the flips; `None` where it is transparent.
pub open spec fn text_tile_pixel(p: Ppu, bg: int, vram: Seq<u8>, entry: u16, y: u32, px: u32) -> Option<u16> {
    let cnt = p.bgcnt@[bg];
    let char_base = ((cnt >> 2u16) & 3) as int * 16384;
    let tile_num = (entry & 0x3FF) as int;
    let py = if entry & 0x800 != 0 { 7 - (y & 7) } else { (y & 7) as int };
    let pxl = if entry & 0x400 != 0 { 7 - (px & 7) } else { (px & 7) as int };
    if cnt & 0x80 != 0 {
        let tile_addr = char_base + tile_num * 64 + py * 8 + pxl;
        if tile_addr < vram.len() && vram[tile_addr] != 0 {
            Some(vram[tile_addr] as u16)
        } else {
            None
        }
    } else {
        let tile_addr = char_base + tile_num * 32 + py * 4 + pxl / 2;
        if tile_addr < vram.len() {
            let byte = vram[tile_addr];
            let ci = if pxl % 2 == 1 { byte >> 4u8 } else { byte & 0xF };
            if ci != 0 {
                Some((((entry >> 12u16) & 0xF) * 16 + ci as u16) as u16)
            } else {
                None
            }
        } else {
            None
        }
    }
}

/// The pixel of text background `bg` at column `x` of `line`: a palette index,
/// or `None` where the background is transparent or its data lies past VRAM.
pub open spec fn text_pixel(p: Ppu, bg: int, line: u16, vram: Seq<u8>, x: int) -> Option<u16> {
    let y = text_row(p, bg, line);
    let px = text_col(p, bg, x);
    let map_idx = text_map_index(p, bg, y, px);
    if map_idx + 1 >= vram.len() {
        None
    } else {
        text_tile_pixel(p, bg, vram, le16(vram[map_idx], vram[map_idx + 1]), y, px)
    }
}

/// The side of the square map of an affine background of size field `size`.
pub open spec fn affine_map_size(size: u16) -> int {
    if size == 0 {
        128
    } else if size == 1 {
        256
    } else if size == 2 {
        512
    } else {
        1024
    }
}

/// The pixel of affine background `bg`, with parameter set `ai`, at column `x`
/// of the current line: the reference point advances by `pa`/`pc` per column; a
/// point outside the map is transparent unless the map wraps around.
pub open spec fn affine_pixel(p: Ppu, bg: int, ai: int, vram: Seq<u8>, x: int) -> Option<u16> {
    let cnt = p.bgcnt@[bg];
    let char_base = ((cnt >> 2u16) & 3) as int * 16384;
    let screen_base = ((cnt >> 8u16) & 0x1F) as int * 2048;
    let wrap = cnt & 0x2000 != 0;
    let m = affine_map_size((cnt >> 14u16) & 3);
    let aff = p.bg_affine@[ai];
    let rx = (aff.internal_x + x * aff.pa) as i32;
    let ry = (aff.internal_y + x * aff.pc) as i32;
    let sx = (rx >> 8i32) as int;
    let sy = (ry >> 8i32) as int;
    if !wrap && (sx < 0 || sy < 0 || sx >= m || sy >= m) {
        None
    } else {
        let tx = if wrap { sx % m } else { sx };
        let ty = if wrap { sy % m } else { sy };
        affine_tile_pixel(p, bg, vram, tx, ty, m)
    }
}

/// The colour index at map point `(tx, ty)` of an affine background of side `m`.
pub open spec fn affine_tile_pixel(p: Ppu, bg: int, vram: Seq<u8>, tx: int, ty: int, m: int) -> Option<u16> {
    let cnt = p.bgcnt@[bg];
    let char_base = ((cnt >> 2u16) & 3) as int * 16384;
    let screen_base = ((cnt >> 8u16) & 0x1F) as int * 2048;
    let map_idx = screen_base + (ty / 8) * (m / 8) + tx / 8;
    if map_idx >= vram.len() {
        None
    } else {
        let tile_addr = char_base + vram[map_idx] as int * 64 + (ty % 8) * 8 + tx % 8;
        if tile_addr >= vram.len() || vram[tile_addr] == 0 {
            None
        } else {
            Some(vram[tile_addr] as u16)
        }
    }
}

/// The pixel of the 15-bit bitmap of mode 3 at column `x` of `line`.
pub open spec fn mode3_pixel(line: u16, vram: Seq<u8>, x: int) -> Option<u16> {
    let addr = (line * 240 + x) * 2;
    if addr + 1 < vram.len() {
        Some(le16(vram[addr], vram[addr + 1]) | 0x8000)
    } else {
        None
    }
}

/// The start of the displayed frame of a double-buffered bitmap mode.
pub open spec fn frame_base(p: Ppu) -> int {
    if p.dispcnt & 0x10 != 0 { 0xA000 } else { 0 }
}

/// The pixel of the paletted bitmap of mode 4 at column `x` of `line`.
pub open spec fn mode4_pixel(p: Ppu, line: u16, vram: Seq<u8>, x: int) -> Option<u16> {
    let addr = frame_base(p) + line * 240 + x;
    if addr < vram.len() && vram[addr] != 0 {
        Some(vram[addr] as u16)
    } else {
        None
    }
}

/// The pixel of the small 15-bit bitmap of mode 5 at column `x` of `line`.
pub open spec fn mode5_pixel(p: Ppu, line: u16, vram: Seq<u8>, x: int) -> Option<u16> {
    let addr = frame_base(p) + (line * 160 + x) * 2;
    if line < 128 && x < 160 && addr + 1 < vram.len() {
        Some(le16(vram[addr], vram[addr + 1]) | 0x8000)
    } else {
        None
    }
}

/// An empty background line.
pub open spec fn blank_line() -> Seq<u16> {
    Seq::new(240, |x: int| 0x8000u16)
}

/// Whether background `b` is switched on in the display control.
pub open spec fn bg_enabled(p: Ppu, b: int) -> bool {
    p.dispcnt & ((1u16 << ((8 + b) as u16)) as u16) != 0
}

/// Line `line` of background `b` as the mode in the display control draws it.
pub open spec fn bg_line_spec(p: Ppu, b: int, line: u16, vram: Seq<u8>) -> Seq<u16> {
    let mode = p.dispcnt & 7;
    if mode == 0 && bg_enabled(p, b) {
        overlay(blank_line(), |x: int| text_pixel(p, b, line, vram, x))
    } else if mode == 1 && b < 2 && bg_enabled(p, b) {
        overlay(blank_line(), |x: int| text_pixel(p, b, line, vram, x))
    } else if (mode == 1 || mode == 2) && b == 2 && bg_enabled(p, 2) {
        overlay(blank_line(), |x: int| affine_pixel(p, 2, 0, vram, x))
    } else if mode == 2 && b == 3 && bg_enabled(p, 3) {
        overlay(blank_line(), |x: int| affine_pixel(p, 3, 1, vram, x))
    } else if mode == 3 && b == 2 && bg_enabled(p, 2) {
        overlay(blank_line(), |x: int| mode3_pixel(line, vram, x))
    } else if mode == 4 && b == 2 && bg_enabled(p, 2) {
        overlay(blank_line(), |x: int| mode4_pixel(p, line, vram, x))
    } else if mode == 5 && b == 2 && bg_enabled(p, 2) {
        overlay(blank_line(), |x: int| mode5_pixel(p, line, vram, x))
    } else {
        blank_line()
    }
}

impl Ppu {
    pub open spec fn is_initial(&self) -> bool {
        &&& self.dispcnt == 0x0080
        &&& self.green_swap == 0
        &&& self.dispstat == 0
        &&& (forall|i: int| 0 <= i < 4 ==> #[trigger] self.bgcnt@[i] == 0)
        &&& (forall|i: int| 0 <= i < 4 ==> #[trigger] self.bghofs@[i] == 0)
        &&& (forall|i: int| 0 <= i < 4 ==> #[trigger] self.bgvofs@[i] == 0)
        &&& (forall|i: int| 0 <= i < 2 ==> #[trigger] self.bg_affine@[i] == BgAffine::initial())
        &&& self.win0h == 0 && self.win1h == 0 && self.win0v == 0 && self.win1v == 0
        &&& self.winin == 0 && self.winout == 0 && self.mosaic == 0
        &&& self.bldcnt == 0 && self.bldalpha == 0 && self.bldy == 0
    }

    pub fn new() -> (p: Self)
        ensures
            p.is_initial(),
    {
        Self {
            dispcnt: 0x0080,
            green_swap: 0,
            dispstat: 0,
            bgcnt: [0;4],
            bghofs: [0;4],
            bgvofs: [0;4],
            bg_affine: [BgAffine::new(), BgAffine::new()],
            win0h: 0,
            win1h: 0,
            win0v: 0,
            win1v: 0,
            winin: 0,
            winout: 0,
            mosaic: 0,
            bldcnt: 0,
            bldalpha: 0,
            bldy: 0,
        }
    }

    /// Reloads the internal reference points of both affine backgrounds from
    /// their 28-bit reference registers.
    pub fn on_vblank_end(&mut self)
        ensures
            *final(self) == (Ppu { bg_affine: final(self).bg_affine, ..*old(self) }),
            forall|i: int|
                0 <= i < 2 ==> {
                    let a = #[trigger] final(self).bg_affine@[i];
                    let o = old(self).bg_affine@[i];
                    &&& a == (BgAffine { internal_x: a.internal_x, internal_y: a.internal_y, ..o })
                    &&& a.internal_x as int == sext28(o.ref_x)
                    &&& a.internal_y as int == sext28(o.ref_y)
                },
    {
        let mut a0 = self.bg_affine[0];
        let mut a1 = self.bg_affine[1];
        a0.internal_x = sign_extend_28(a0.ref_x);
        a0.internal_y = sign_extend_28(a0.ref_y);
        a1.internal_x = sign_extend_28(a1.ref_x);
        a1.internal_y = sign_extend_28(a1.ref_y);
        self.bg_affine = [a0, a1];
    }

    fn text_row_exec(&self, bg: usize, line: u16) -> (r: u32)
        requires
            bg < 4,
        ensures
            r == text_row(*self, bg as int, line),
            r < 512,
    {
        let size = (self.bgcnt[bg] >> 14) & 3;
        let map_h: u32 = if size == 2 || size == 3 { 512 } else { 256 };
        let scroll_y = self.bgvofs[bg] as u32;
        let r = if self.bgcnt[bg] & 0x40 != 0 {
            let mh = ((self.mosaic >> 4) & 0xF) as u32 + 1;
            proof {
                assert((line as u32 / mh) * mh <= line as u32) by (nonlinear_arith)
                    requires
                        mh >= 1,
                ;
            }
            ((line as u32 / mh) * mh + scroll_y) & (map_h - 1)
        } else {
            (line as u32 + scroll_y) & (map_h - 1)
        };
        r
    }

    fn text_col_exec(&self, bg: usize, x: u32) -> (r: u32)
        requires
            bg < 4,
            x < 240,
        ensures
            r == text_col(*self, bg as int, x as int),
            r < 512,
    {
        let size = (self.bgcnt[bg] >> 14) & 3;
        let map_w: u32 = if size == 1 || size == 3 { 512 } else { 256 };
        let scroll_x = self.bghofs[bg] as u32;
        if self.bgcnt[bg] & 0x40 != 0 {
            let mw = (self.mosaic & 0xF) as u32 + 1;
            proof {
                assert((x / mw) * mw <= x) by (nonlinear_arith)
                    requires
                        mw >= 1,
                ;
            }
            ((x / mw) * mw + scroll_x) & (map_w - 1)
        } else {
            (x + scroll_x) & (map_w - 1)
        }
    }

    fn text_map_index_exec(&self, bg: usize, y: u32, px: u32) -> (r: usize)
        requires
            bg < 4,
            y < 512,
            px < 512,
        ensures
            r as int == text_map_index(*self, bg as int, y, px),
            r < 0x20000,
    {
        let cnt = self.bgcnt[bg];
        let size = (cnt >> 14) & 3;
        let screen_base = ((cnt >> 8) & 0x1F) as usize * 2048;
        let tile_row = y / 8;
        let tile_col = px / 8;
        let screen_block: usize = if size == 0 {
            0
        } else if size == 1 {
            (tile_col / 32) as usize
        } else if size == 2 {
            (tile_row / 32) as usize
        } else {
            ((tile_row / 32) * 2 + tile_col / 32) as usize
        };
        let local_col = tile_col & 31;
        let local_row = tile_row & 31;
        screen_base + screen_block * 2048 + (local_row * 32 + local_col) as usize * 2
    }

    fn text_tile_pixel_exec(&self, bg: usize, vram: &[u8], entry: u16, y: u32, px: u32) -> (r: Option<u16>)
        requires
            bg < 4,
        ensures
            r == text_tile_pixel(*self, bg as int, vram@, entry, y, px),
    {
        let cnt = self.bgcnt[bg];
        let char_base = ((cnt >> 2) & 3) as usize * 16384;
        let tile_num = (entry & 0x3FF) as usize;
        let pixel_y = y & 7;
        let pixel_x = px & 7;
        let py = if entry & 0x800 != 0 { 7 - pixel_y } else { pixel_y };
        let px_local = if entry & 0x400 != 0 { 7 - pixel_x } else { pixel_x };
        if cnt & 0x80 != 0 {
            let tile_addr = char_base + tile_num * 64 + py as usize * 8 + px_local as usize;
            if tile_addr < vram.len() {
                let color_idx = vram[tile_addr];
                if color_idx != 0 {
                    return Some(color_idx as u16);
                }
            }
            None
        } else {
            let pal = (entry >> 12) & 0xF;
            let tile_addr = char_base + tile_num * 32 + py as usize * 4 + (px_local / 2) as usize;
            if tile_addr < vram.len() {
                let byte = vram[tile_addr];
                proof {
                    assert((px_local <= 7 ==> ((px_local & 1 != 0) == (px_local % 2 == 1))) && byte >> 4u8 <= 15)
                        by (bit_vector);
                }
                let color_idx = if px_local & 1 != 0 { byte >> 4 } else { byte & 0xF };
                if color_idx != 0 {
                    return Some(pal * 16 + color_idx as u16);
                }
            }
            None
        }
    }

    fn text_pixel_exec(&self, bg: usize, line: u16, vram: &[u8], x: u32) -> (r: Option<u16>)
        requires
            bg < 4,
            x < 240,
        ensures
            r == text_pixel(*self, bg as int, line, vram@, x as int),
    {
        let y = self.text_row_exec(bg, line);
        let px = self.text_col_exec(bg, x);
        let map_idx = self.text_map_index_exec(bg, y, px);
        if map_idx + 1 >= vram.len() {
            return None;
        }
        let entry = from_le16(vram[map_idx], vram[map_idx + 1]);
        self.text_tile_pixel_exec(bg, vram, entry, y, px)
    }

    fn affine_tile_pixel_exec(&self, bg: usize, vram: &[u8], tx: i32, ty: i32, m: i32) -> (r: Option<u16>)
        requires
            bg < 4,
            m == 128 || m == 256 || m == 512 || m == 1024,
            0 <= tx < m,
            0 <= ty < m,
        ensures
            r == affine_tile_pixel(*self, bg as int, vram@, tx as int, ty as int, m as int),
    {
        let cnt = self.bgcnt[bg];
        let char_base = ((cnt >> 2) & 3) as usize * 16384;
        let screen_base = ((cnt >> 8) & 0x1F) as usize * 2048;
        let tiles: u32 = (m / 8) as u32;
        let tile_x = tx as u32 / 8;
        let tile_y = ty as u32 / 8;
        let pixel_x = tx as u32 & 7;
        let pixel_y = ty as u32 & 7;
        proof {
            assert(pixel_x == tx % 8 && pixel_y == ty % 8) by (bit_vector)
                requires
                    0 <= tx < 1024,
                    pixel_x == tx as u32 & 7,
                    0 <= ty < 1024,
                    pixel_y == ty as u32 & 7,
            ;
            assert(tile_y < 128);
            assert(tiles <= 128);
            assert(tile_y * tiles <= 127 * 128) by (nonlinear_arith)
                requires
                    tile_y < 128,
                    tiles <= 128,
            ;
        }
        let map_idx = screen_base + (tile_y * tiles + tile_x) as usize;
        if map_idx >= vram.len() {
            return None;
        }
        let tile_num = vram[map_idx] as usize;
        let tile_addr = char_base + tile_num * 64 + pixel_y as usize * 8 + pixel_x as usize;
        if tile_addr >= vram.len() {
            return None;
        }
        let color_idx = vram[tile_addr];
        if color_idx != 0 {
            Some(color_idx as u16)
        } else {
            None
        }
    }

    fn affine_pixel_exec(&self, bg: usize, ai: usize, vram: &[u8], x: u32, rx: i32, ry: i32) -> (r: Option<u16>)
        requires
            bg < 4,
            ai < 2,
            rx as int == self.bg_affine@[ai as int].internal_x + x * self.bg_affine@[ai as int].pa,
            ry as int == self.bg_affine@[ai as int].internal_y + x * self.bg_affine@[ai as int].pc,
        ensures
            r == affine_pixel(*self, bg as int, ai as int, vram@, x as int),
    {
        let cnt = self.bgcnt[bg];
        let wraparound = cnt & 0x2000 != 0;
        let size = (cnt >> 14) & 3;
        let map_size: i32 = if size == 0 {
            128
        } else if size == 1 {
            256
        } else if size == 2 {
            512
        } else {
            1024
        };
        let sx = rx >> 8;
        let sy = ry >> 8;
        if wraparound {
            let tx = wrap_coord(sx, map_size);
            let ty = wrap_coord(sy, map_size);
            self.affine_tile_pixel_exec(bg, vram, tx, ty, map_size)
        } else {
            if sx < 0 || sy < 0 || sx >= map_size || sy >= map_size {
                return None;
            }
            self.affine_tile_pixel_exec(bg, vram, sx, sy, map_size)
        }
    }

    fn render_text_bg(&self, bg: usize, line: u16, vram: &[u8], palette: &[u8], out: &mut Vec<u16>)
        requires
            bg < 4,
            old(out).len() == 240,
        ensures
            final(out)@ == overlay(old(out)@, |x: int| text_pixel(*self, bg as int, line, vram@, x)),
    {
        let _ = palette;
        let mut x: u32 = 0;
        while x < 240
            invariant
                bg < 4,
                x <= 240,
                out.len() == 240,
                forall|j: int|
                    0 <= j < 240 ==> #[trigger] out@[j] == if j < x {
                        match text_pixel(*self, bg as int, line, vram@, j) {
                            Some(c) => c,
                            None => old(out)@[j],
                        }
                    } else {
                        old(out)@[j]
                    },
            decreases 240 - x,
        {
            match self.text_pixel_exec(bg, line, vram, x) {
                Some(c) => {
                    out.set(x as usize, c);
                },
                None => {},
            }
            x += 1;
        }
        assert(out@ =~= overlay(old(out)@, |x: int| text_pixel(*self, bg as int, line, vram@, x)));
    }

    fn render_affine_bg(&self, bg: usize, affine_idx: usize, line: u16, vram: &[u8], palette: &[u8], out: &mut Vec<u16>)
        requires
            bg < 4,
            affine_idx < 2,
            old(out).len() == 240,
            affine_fits(self.bg_affine@[affine_idx as int]),
        ensures
            final(out)@ == overlay(old(out)@, |x: int| affine_pixel(*self, bg as int, affine_idx as int, vram@, x)),
    {
        let _ = palette;
        let _ = line;
        let aff = self.bg_affine[affine_idx];
        let mut ref_x = aff.internal_x;
        let mut ref_y = aff.internal_y;
        let pa = aff.pa as i32;
        let pc = aff.pc as i32;
        let mut x: u32 = 0;
        while x < 240
            invariant
                bg < 4,
                affine_idx < 2,
                aff == self.bg_affine@[affine_idx as int],
                affine_fits(aff),
                pa == aff.pa,
                pc == aff.pc,
                x <= 240,
                ref_x as int == aff.internal_x + x * pa,
                ref_y as int == aff.internal_y + x * pc,
                out.len() == 240,
                forall|j: int|
                    0 <= j < 240 ==> #[trigger] out@[j] == if j < x {
                        match affine_pixel(*self, bg as int, affine_idx as int, vram@, j) {
                            Some(c) => c,
                            None => old(out)@[j],
                        }
                    } else {
                        old(out)@[j]
                    },
            decreases 240 - x,
        {
            let r = self.affine_pixel_exec(bg, affine_idx, vram, x, ref_x, ref_y);
            proof {
                lemma_affine_step(aff.internal_x as int, pa as int, x as int);
                lemma_affine_step(aff.internal_y as int, pc as int, x as int);
            }
            ref_x = ref_x + pa;
            ref_y = ref_y + pc;
            match r {
                Some(c) => {
                    out.set(x as usize, c);
                },
                None => {},
            }
            x += 1;
        }
        assert(out@ =~= overlay(old(out)@, |x: int| affine_pixel(*self, bg as int, affine_idx as int, vram@, x)));
    }

    fn render_mode3(&self, line: u16, vram: &[u8], out: &mut Vec<u16>)
        requires
            old(out).len() == 240,
        ensures
            final(out)@ == overlay(old(out)@, |x: int| mode3_pixel(line, vram@, x)),
    {
        let y = line as usize;
        let mut x: usize = 0;
        while x < 240
            invariant
                x <= 240,
                y == line,
                out.len() == 240,
                forall|j: int|
                    0 <= j < 240 ==> #[trigger] out@[j] == if j < x {
                        match mode3_pixel(line, vram@, j) {
                            Some(c) => c,
                            None => old(out)@[j],
                        }
                    } else {
                        old(out)@[j]
                    },
            decreases 240 - x,
        {
            let addr = (y * 240 + x) * 2;
            if addr + 1 < vram.len() {
                let color = from_le16(vram[addr], vram[addr + 1]);
                out.set(x, color | 0x8000);
            }
            x += 1;
        }
        assert(out@ =~= overlay(old(out)@, |x: int| mode3_pixel(line, vram@, x)));
    }

    fn render_mode4(&self, line: u16, vram: &[u8], palette: &[u8], out: &mut Vec<u16>)
        requires
            old(out).len() == 240,
        ensures
            final(out)@ == overlay(old(out)@, |x: int| mode4_pixel(*self, line, vram@, x)),
    {
        let _ = palette;
        let frame: usize = if self.dispcnt & 0x10 != 0 { 0xA000 } else { 0 };
        let y = line as usize;
        let mut x: usize = 0;
        while x < 240
            invariant
                x <= 240,
                y == line,
                frame == frame_base(*self),
                out.len() == 240,
                forall|j: int|
                    0 <= j < 240 ==> #[trigger] out@[j] == if j < x {
                        match mode4_pixel(*self, line, vram@, j) {
                            Some(c) => c,
                            None => old(out)@[j],
                        }
                    } else {
                        old(out)@[j]
                    },
            decreases 240 - x,
        {
            let addr = frame + y * 240 + x;
            if addr < vram.len() {
                let color_idx = vram[addr];
                if color_idx != 0 {
                    out.set(x, color_idx as u16);
                }
            }
            x += 1;
        }
        assert(out@ =~= overlay(old(out)@, |x: int| mode4_pixel(*self, line, vram@, x)));
    }

    fn render_mode5(&self, line: u16, vram: &[u8], out: &mut Vec<u16>)
        requires
            old(out).len() == 240,
        ensures
            final(out)@ == overlay(old(out)@, |x: int| mode5_pixel(*self, line, vram@, x)),
    {
        let frame: usize = if self.dispcnt & 0x10 != 0 { 0xA000 } else { 0 };
        let y = line as usize;
        if y >= 128 {
            assert(out@ =~= overlay(old(out)@, |x: int| mode5_pixel(*self, line, vram@, x)));
            return;
        }
        let mut x: usize = 0;
        while x < 160
            invariant
                x <= 160,
                y == line,
                y < 128,
                frame == frame_base(*self),
                out.len() == 240,
                forall|j: int|
                    0 <= j < 240 ==> #[trigger] out@[j] == if j < x {
                        match mode5_pixel(*self, line, vram@, j) {
                            Some(c) => c,
                            None => old(out)@[j],
                        }
                    } else {
                        old(out)@[j]
                    },
            decreases 160 - x,
        {
            let addr = frame + (y * 160 + x) * 2;
            if addr + 1 < vram.len() {
                let color = from_le16(vram[addr], vram[addr + 1]);
                out.set(x, color | 0x8000);
            }
            x += 1;
        }
        assert(out@ =~= overlay(old(out)@, |x: int| mode5_pixel(*self, line, vram@, x)));
    }

    fn get_sprite_pixel(
        &self,
        tile_num: usize,
        tex_x: u32,
        tex_y: u32,
        obj_w: u32,
        color_256: bool,
        mapping_1d: bool,
        vram: &[u8],
    ) -> (r: u8)
        requires
            tile_num < 0x400,
            tex_x < 64,
            tex_y < 64,
            obj_w <= 64,
        ensures
            r == sprite_pixel_spec(tile_num as int, tex_x, tex_y, obj_w, color_256, mapping_1d, vram@),
    {
        proof {
            lemma_low_bits_mod(tex_x);
            lemma_low_bits_mod(tex_y);
        }
        let tile_x = tex_x / 8;
        let tile_y = tex_y / 8;
        let pixel_x = tex_x & 7;
        let pixel_y = tex_y & 7;
        proof {
            assert(tile_y * (obj_w / 8) <= 7 * 8) by (nonlinear_arith)
                requires
                    tile_y <= 7,
                    obj_w / 8 <= 8,
            ;
            lemma_low_bits_mod(pixel_x);
        }
        let t = tile_num as u32;
        let tile_idx: u32 = if mapping_1d {
            if color_256 {
                t + (tile_y * (obj_w / 8) + tile_x) * 2
            } else {
                t + (tile_y * (obj_w / 8) + tile_x)
            }
        } else {
            let v = if color_256 { t + tile_y * 32 + tile_x * 2 } else { t + tile_y * 32 + tile_x };
            proof {
                lemma_low_bits_mod(v);
            }
            v & 0x3FF
        };
        let base: usize = 0x10000;
        if color_256 {
            let addr = base + tile_idx as usize * 32 + pixel_y as usize * 8 + pixel_x as usize;
            if addr < vram.len() {
                vram[addr]
            } else {
                0
            }
        } else {
            let addr = base + tile_idx as usize * 32 + pixel_y as usize * 4 + (pixel_x / 2) as usize;
            if addr < vram.len() {
                let byte = vram[addr];
                if pixel_x & 1 != 0 {
                    byte >> 4
                } else {
                    byte & 0xF
                }
            } else {
                0
            }
        }
    }

    fn sprite_texel_exec(oam: &[u8], i: usize, line: u16, screen_x: i32) -> (r: Option<(u32, u32)>)
        requires
            oam.len() >= 1024,
            i < 128,
            sprite_on_line(oam@, i as int, line),
            0 <= screen_x < 128,
            !sprite_rot(oam@, i as int) ==> screen_x < sprite_dims(oam@, i as int).0,
        ensures
            match sprite_texel(oam@, i as int, line, screen_x as int) {
                Some((tx, ty)) => r == Some((tx as u32, ty as u32)) && 0 <= tx < 64 && 0 <= ty < 64,
                None => r is None,
            },
    {
        let a0 = from_le16(oam[i * 8], oam[i * 8 + 1]);
        let a1 = from_le16(oam[i * 8 + 2], oam[i * 8 + 3]);
        let (w, h) = sprite_size((a0 >> 14) & 3, (a1 >> 14) & 3);
        let y0 = (a0 & 0xFF) as i32;
        let y = if y0 >= 160 { y0 - 256 } else { y0 };
        let local_y = line as i32 - y;
        let rot = a0 & 0x100 != 0;
        let double = rot && a0 & 0x200 != 0;
        let bh: i32 = if double { h as i32 * 2 } else { h as i32 };
        let bw: i32 = if double { w as i32 * 2 } else { w as i32 };
        if rot {
            let g = ((a1 >> 9) & 0x1F) as usize;
            let pa = from_le16(oam[g * 32 + 6], oam[g * 32 + 7]) as i16 as i32;
            let pb = from_le16(oam[g * 32 + 14], oam[g * 32 + 15]) as i16 as i32;
            let pc = from_le16(oam[g * 32 + 22], oam[g * 32 + 23]) as i16 as i32;
            let pd = from_le16(oam[g * 32 + 30], oam[g * 32 + 31]) as i16 as i32;
            let ix = screen_x - bw / 2;
            let iy = local_y - bh / 2;
            proof {
                assert(-0x80_0000 <= pa * ix <= 0x80_0000 && -0x80_0000 <= pb * iy <= 0x80_0000
                    && -0x80_0000 <= pc * ix <= 0x80_0000 && -0x80_0000 <= pd * iy <= 0x80_0000)
                    by (nonlinear_arith)
                    requires
                        -0x8000 <= pa <= 0x7FFF,
                        -0x8000 <= pb <= 0x7FFF,
                        -0x8000 <= pc <= 0x7FFF,
                        -0x8000 <= pd <= 0x7FFF,
                        -128 <= ix <= 128,
                        -128 <= iy <= 128,
                ;
            }
            let sum_x: i32 = pa * ix + pb * iy;
            let sum_y: i32 = pc * ix + pd * iy;
            proof {
                assert(-0x10000 <= (sum_x >> 8i32) <= 0x10000 && -0x10000 <= (sum_y >> 8i32) <= 0x10000)
                    by (bit_vector)
                    requires
                        -0x100_0000 <= sum_x <= 0x100_0000,
                        -0x100_0000 <= sum_y <= 0x100_0000,
                ;
            }
            let tex_x = (sum_x >> 8) + w as i32 / 2;
            let tex_y = (sum_y >> 8) + h as i32 / 2;
            if tex_x < 0 || tex_x >= w as i32 || tex_y < 0 || tex_y >= h as i32 {
                return None;
            }
            Some((tex_x as u32, tex_y as u32))
        } else {
            let tex_x = if a1 & 0x1000 != 0 { w as i32 - 1 - screen_x } else { screen_x };
            let tex_y = if a1 & 0x2000 != 0 { h as i32 - 1 - local_y } else { local_y };
            Some((tex_x as u32, tex_y as u32))
        }
    }

    /// Draws sprite `i` over the sprite line of `line`.
    fn draw_sprite(&self, i: usize, line: u16, vram: &[u8], oam: &[u8], out: &mut Vec<(u16, u8, bool)>)
        requires
            oam.len() >= 1024,
            i < 128,
            old(out).len() == 240,
        ensures
            final(out)@ == sprite_apply(*self, line, vram@, oam@, i as int, old(out)@),
    {
        let a0 = from_le16(oam[i * 8], oam[i * 8 + 1]);
        let a1 = from_le16(oam[i * 8 + 2], oam[i * 8 + 3]);
        let a2 = from_le16(oam[i * 8 + 4], oam[i * 8 + 5]);
        let rot = a0 & 0x100 != 0;
        let double = rot && a0 & 0x200 != 0;
        let (w, h) = sprite_size((a0 >> 14) & 3, (a1 >> 14) & 3);
        let y0 = (a0 & 0xFF) as i32;
        let y = if y0 >= 160 { y0 - 256 } else { y0 };
        let bh: i32 = if double { h as i32 * 2 } else { h as i32 };
        let bw: i32 = if double { w as i32 * 2 } else { w as i32 };
        let local_y = line as i32 - y;
        if (!rot && a0 & 0x200 != 0) || (a0 >> 10) & 3 == 3 || local_y < 0 || local_y >= bh {
            assert(out@ =~= sprite_apply(*self, line, vram@, oam@, i as int, old(out)@));
            return;
        }
        let x0 = (a1 & 0x1FF) as i32;
        let x = if x0 >= 240 { x0 - 512 } else { x0 };
        let tile_num = (a2 & 0x3FF) as usize;
        let priority = ((a2 >> 10) & 3) as u8;
        let pal = (a2 >> 12) & 0xF;
        let semi = (a0 >> 10) & 3 == 1;
        let color_256 = a0 & 0x2000 != 0;
        let mapping_1d = self.dispcnt & 0x40 != 0;
        let draw_w: i32 = if rot { bw } else { w as i32 };
        let mut screen_x: i32 = 0;
        while screen_x < draw_w
            invariant
                oam.len() >= 1024,
                i < 128,
                sprite_on_line(oam@, i as int, line),
                x == sprite_left(oam@, i as int),
                draw_w == (if sprite_rot(oam@, i as int) { sprite_box_w(oam@, i as int) } else { sprite_dims(oam@, i as int).0 as int }),
                0 < draw_w <= 128,
                w == sprite_dims(oam@, i as int).0,
                tile_num == (a2 & 0x3FF),
                a0 == oam16(oam@, i as int * 8),
                a2 == oam16(oam@, i as int * 8 + 4),
                priority == ((a2 >> 10u16) & 3) as u8,
                pal == (a2 >> 12u16) & 0xF,
                semi == ((a0 >> 10u16) & 3 == 1),
                color_256 == (a0 & 0x2000 != 0),
                mapping_1d == (self.dispcnt & 0x40 != 0),
                0 <= screen_x <= draw_w,
                out.len() == 240,
                forall|s: int|
                    0 <= s < 240 ==> #[trigger] out@[s] == if x <= s < x + screen_x {
                        apply_at(*self, line, vram@, oam@, i as int, old(out)@, s)
                    } else {
                        old(out)@[s]
                    },
            decreases draw_w - screen_x,
        {
            let sx = x + screen_x;
            if sx >= 0 && sx < 240 {
                match Self::sprite_texel_exec(oam, i, line, screen_x) {
                    Some((tex_x, tex_y)) => {
                        let color_idx = self.get_sprite_pixel(
                            tile_num,
                            tex_x,
                            tex_y,
                            w,
                            color_256,
                            mapping_1d,
                            vram,
                        );
                        if color_idx != 0 {
                            let final_color = if color_256 {
                                256 + color_idx as u16
                            } else {
                                256 + pal * 16 + color_idx as u16
                            };
                            let su = sx as usize;
                            if out[su].1 >= priority {
                                out.set(su, (final_color, priority, semi));
                            }
                        }
                    },
                    None => {},
                }
            }
            screen_x += 1;
        }
        assert(out@ =~= sprite_apply(*self, line, vram@, oam@, i as int, old(out)@));
    }

    fn render_sprites(&self, line: u16, vram: &[u8], palette: &[u8], oam: &[u8], out: &mut Vec<(u16, u8, bool)>)
        requires
            oam.len() >= 1024,
            old(out).len() == 240,
        ensures
            final(out)@ == sprites_from(*self, line, vram@, oam@, old(out)@, 0),
    {
        let _ = palette;
        let mut k: usize = 128;
        while k > 0
            invariant
                k <= 128,
                oam.len() >= 1024,
                out.len() == 240,
                out@ == sprites_from(*self, line, vram@, oam@, old(out)@, k as int),
            decreases k,
        {
            k -= 1;
            self.draw_sprite(k, line, vram, oam, out);
        }
    }

    fn bg_step_exec(&self, palette: &[u8], v: u16, win: u16, st: Stack, b: usize) -> (r: Stack)
        requires
            b < 4,
        ensures
            r == bg_step(*self, palette@, v, win, st, b as int),
    {
        if self.dispcnt & (1u16 << (8 + b as u16)) == 0 || win & (1u16 << (b as u16)) == 0 || v
            == 0x8000 {
            return st;
        }
        let prio = (self.bgcnt[b] & 3) as u8;
        let color = if self.dispcnt & 7 >= 3 && b == 2 && v & 0x8000 != 0 {
            color_from_rgb5(v & 0x7FFF)
        } else {
            palette_color(palette, v as usize)
        };
        if prio < st.top_prio || (prio == st.top_prio && (b as u8) < st.top_layer) {
            Stack {
                top_color: color,
                top_prio: prio,
                top_layer: b as u8,
                second_color: st.top_color,
                second_layer: st.top_layer,
            }
        } else if prio < 4 {
            Stack { second_color: color, second_layer: b as u8, ..st }
        } else {
            st
        }
    }

    fn blend_exec(&self, st: Stack, semi: bool, win: u16) -> (r: u32)
        ensures
            r == blend_spec(*self, st, semi, win),
    {
        let mode = (self.bldcnt >> 6) & 3;
        let a = self.bldalpha & 0x1F;
        let eva: u32 = if a > 16 { 16 } else { a as u32 };
        let bb = (self.bldalpha >> 8) & 0x1F;
        let evb: u32 = if bb > 16 { 16 } else { bb as u32 };
        let y = self.bldy & 0x1F;
        let evy: u32 = if y > 16 { 16 } else { y as u32 };
        if win & 0x20 == 0 {
            return st.top_color;
        }
        let first = is_blend_target(self.bldcnt, st.top_layer, false);
        let second = is_blend_target(self.bldcnt, st.second_layer, true);
        let semi_obj = st.top_layer == 4 && semi && second;
        if mode == 1 {
            if semi_obj || (first && second) {
                alpha_blend(st.top_color, st.second_color, eva, evb)
            } else {
                st.top_color
            }
        } else if semi_obj {
            alpha_blend(st.top_color, st.second_color, eva, evb)
        } else if mode == 2 && first {
            brightness_increase(st.top_color, evy)
        } else if mode == 3 && first {
            brightness_decrease(st.top_color, evy)
        } else {
            st.top_color
        }
    }

    fn compose_pixel_exec(
        &self,
        line: u16,
        bg0: &Vec<u16>,
        bg1: &Vec<u16>,
        bg2: &Vec<u16>,
        bg3: &Vec<u16>,
        obj: &Vec<(u16, u8, bool)>,
        palette: &[u8],
        x: usize,
    ) -> (r: u32)
        requires
            x < 240,
            bg0.len() == 240,
            bg1.len() == 240,
            bg2.len() == 240,
            bg3.len() == 240,
            obj.len() == 240,
        ensures
            r == compose_pixel(*self, line, seq![bg0@, bg1@, bg2@, bg3@], obj@, palette@, x as int),
    {
        let win = if self.dispcnt & 0xE000 != 0 {
            self.get_window_flags(x as u16, line)
        } else {
            0x3F
        };
        let backdrop = palette_color(palette, 0);
        let s0 = Stack {
            top_color: backdrop,
            top_prio: 4,
            top_layer: 5,
            second_color: backdrop,
            second_layer: 5,
        };
        let s1 = self.bg_step_exec(palette, bg0[x], win, s0, 0);
        let s2 = self.bg_step_exec(palette, bg1[x], win, s1, 1);
        let s3 = self.bg_step_exec(palette, bg2[x], win, s2, 2);
        let s4 = self.bg_step_exec(palette, bg3[x], win, s3, 3);
        let o = obj[x];
        let s5 = if o.0 != 0x8000 && win & 0x10 != 0 {
            let color = palette_color(palette, o.0 as usize);
            if o.1 <= s4.top_prio {
                Stack {
                    top_color: color,
                    top_prio: o.1,
                    top_layer: 4,
                    second_color: s4.top_color,
                    second_layer: s4.top_layer,
                }
            } else {
                Stack { second_color: color, second_layer: 4, ..s4 }
            }
        } else {
            s4
        };
        self.blend_exec(s5, o.2, win)
    }

    fn compose_scanline(
        &self,
        line: u16,
        bg0: &Vec<u16>,
        bg1: &Vec<u16>,
        bg2: &Vec<u16>,
        bg3: &Vec<u16>,
        obj_line: &Vec<(u16, u8, bool)>,
        palette: &[u8],
        framebuffer: &mut Vec<u32>,
    )
        requires
            bg0.len() == 240,
            bg1.len() == 240,
            bg2.len() == 240,
            bg3.len() == 240,
            obj_line.len() == 240,
            old(framebuffer).len() >= line * 240 + 240,
        ensures
            final(framebuffer)@ == with_row(
                old(framebuffer)@,
                line,
                |x: int| compose_pixel(*self, line, seq![bg0@, bg1@, bg2@, bg3@], obj_line@, palette@, x),
            ),
    {
        let offset = line as usize * 240;
        let mut x: usize = 0;
        while x < 240
            invariant
                x <= 240,
                offset == line * 240,
                bg0.len() == 240,
                bg1.len() == 240,
                bg2.len() == 240,
                bg3.len() == 240,
                obj_line.len() == 240,
                framebuffer.len() == old(framebuffer).len(),
                framebuffer.len() >= offset + 240,
                forall|k: int|
                    0 <= k < framebuffer.len() ==> #[trigger] framebuffer@[k] == if offset <= k
                        < offset + x {
                        compose_pixel(*self, line, seq![bg0@, bg1@, bg2@, bg3@], obj_line@, palette@, k - offset)
                    } else {
                        old(framebuffer)@[k]
                    },
            decreases 240 - x,
        {
            let c = self.compose_pixel_exec(line, bg0, bg1, bg2, bg3, obj_line, palette, x);
            framebuffer.set(offset + x, c);
            x += 1;
        }
        assert(framebuffer@ =~= with_row(
            old(framebuffer)@,
            line,
            |x: int| compose_pixel(*self, line, seq![bg0@, bg1@, bg2@, bg3@], obj_line@, palette@, x),
        ));
    }

    fn bg_line_exec(&self, b: usize, line: u16, palette: &[u8], vram: &[u8]) -> (r: Vec<u16>)
        requires
            b < 4,
            render_fits(*self),
        ensures
            r@ == bg_line_spec(*self, b as int, line, vram@),
    {
        let mut out = vec![0x8000u16; 240];
        assert(out@ =~= blank_line());
        let mode = self.dispcnt & 7;
        let on = self.dispcnt & (1u16 << (8 + b as u16)) != 0;
        assert(on == bg_enabled(*self, b as int));
        let on2 = self.dispcnt & 0x400 != 0;
        let on3 = self.dispcnt & 0x800 != 0;
        assert(on2 == bg_enabled(*self, 2) && on3 == bg_enabled(*self, 3)) by {
            assert((1u16 << 10u16) == 0x400u16 && (1u16 << 11u16) == 0x800u16) by (bit_vector);
        }
        if mode == 0 && on {
            self.render_text_bg(b, line, vram, palette, &mut out);
        } else if mode == 1 && b < 2 && on {
            self.render_text_bg(b, line, vram, palette, &mut out);
        } else if (mode == 1 || mode == 2) && b == 2 && on2 {
            self.render_affine_bg(2, 0, line, vram, palette, &mut out);
        } else if mode == 2 && b == 3 && on3 {
            self.render_affine_bg(3, 1, line, vram, palette, &mut out);
        } else if mode == 3 && b == 2 && on2 {
            self.render_mode3(line, vram, &mut out);
        } else if mode == 4 && b == 2 && on2 {
            self.render_mode4(line, vram, palette, &mut out);
        } else if mode == 5 && b == 2 && on2 {
            self.render_mode5(line, vram, &mut out);
        }
        out
    }

    /// Draws `line` into the frame buffer and moves the affine reference points.
    pub fn render_scanline(
        &mut self,
        line: u16,
        palette: &[u8],
        vram: &[u8],
        oam: &[u8],
        framebuffer: &mut Vec<u32>,
    )
        requires
            old(framebuffer).len() >= line * 240 + 240,
            old(self).dispcnt & 0x80 == 0 ==> render_fits(*old(self)),
            old(self).dispcnt & 0x80 == 0 && old(self).dispcnt & 0x1000 != 0 ==> oam.len() >= 1024,
        ensures
            if old(self).dispcnt & 0x80 != 0 {
                &&& final(framebuffer)@ == with_row(old(framebuffer)@, line, |x: int| 0xFFFF_FFFFu32)
                &&& *final(self) == *old(self)
            } else {
                &&& final(framebuffer)@ == with_row(
                    old(framebuffer)@,
                    line,
                    |x: int|
                        compose_pixel(
                            *old(self),
                            line,
                            bg_lines_spec(*old(self), line, vram@),
                            obj_line_spec(*old(self), line, vram@, oam@),
                            palette@,
                            x,
                        ),
                )
                &&& final(self).bg_affine@ == affine_after_line(*old(self))
                &&& *final(self) == (Ppu { bg_affine: final(self).bg_affine, ..*old(self) })
            },
    {
        if self.dispcnt & 0x80 != 0 {
            let offset = line as usize * 240;
            let mut x: usize = 0;
            while x < 240
                invariant
                    x <= 240,
                    offset == line * 240,
                    framebuffer.len() == old(framebuffer).len(),
                    framebuffer.len() >= offset + 240,
                    forall|k: int|
                        0 <= k < framebuffer.len() ==> #[trigger] framebuffer@[k] == if offset <= k
                            < offset + x {
                            0xFFFF_FFFFu32
                        } else {
                            old(framebuffer)@[k]
                        },
                decreases 240 - x,
            {
                framebuffer.set(offset + x, 0xFFFF_FFFF);
                x += 1;
            }
            assert(framebuffer@ =~= with_row(old(framebuffer)@, line, |x: int| 0xFFFF_FFFFu32));
            return;
        }
        let b0 = self.bg_line_exec(0, line, palette, vram);
        let b1 = self.bg_line_exec(1, line, palette, vram);
        let b2 = self.bg_line_exec(2, line, palette, vram);
        let b3 = self.bg_line_exec(3, line, palette, vram);
        let mut obj = empty_obj_line();
        if self.dispcnt & 0x1000 != 0 {
            self.render_sprites(line, vram, palette, oam, &mut obj);
        }
        assert(seq![b0@, b1@, b2@, b3@] =~= bg_lines_spec(*self, line, vram@));
        self.compose_scanline(line, &b0, &b1, &b2, &b3, &obj, palette, framebuffer);
        let mode = self.dispcnt & 7;
        let mut a0 = self.bg_affine[0];
        let mut a1 = self.bg_affine[1];
        if mode >= 1 && self.dispcnt & 0x400 != 0 {
            a0.internal_x = a0.internal_x + a0.pb as i32;
            a0.internal_y = a0.internal_y + a0.pd as i32;
        }
        if mode == 2 && self.dispcnt & 0x800 != 0 {
            a1.internal_x = a1.internal_x + a1.pb as i32;
            a1.internal_y = a1.internal_y + a1.pd as i32;
        }
        self.bg_affine = [a0, a1];
        assert(self.bg_affine@ =~= affine_after_line(*old(self)));
    }
}


/// The reference point of an affine background stays a signed word over the 240
/// steps of a line.
pub open spec fn affine_fits(a: BgAffine) -> bool {
    &&& -0x8000_0000 <= a.internal_x + 240 * a.pa <= 0x7FFF_FFFF
    &&& -0x8000_0000 <= a.internal_y + 240 * a.pc <= 0x7FFF_FFFF
}

proof fn lemma_affine_step(base: int, step: int, x: int)
    requires
        -0x8000_0000 <= base <= 0x7FFF_FFFF,
        -0x8000_0000 <= base + 240 * step <= 0x7FFF_FFFF,
        0 <= x < 240,
    ensures
        -0x8000_0000 <= base + (x + 1) * step <= 0x7FFF_FFFF,
        base + (x + 1) * step == base + x * step + step,
{
    assert(base + (x + 1) * step == base + x * step + step) by (nonlinear_arith);
    assert(-0x8000_0000 <= base + (x + 1) * step <= 0x7FFF_FFFF) by (nonlinear_arith)
        requires
            -0x8000_0000 <= base <= 0x7FFF_FFFF,
            -0x8000_0000 <= base + 240 * step <= 0x7FFF_FFFF,
            0 <= x < 240,
    ;
}


/// `s` taken modulo the positive map side `m`, into `0..m`.
fn wrap_coord(s: i32, m: i32) -> (r: i32)
    requires
        m > 0,
    ensures
        r as int == (s as int) % (m as int),
        0 <= r < m,
{
    if s >= 0 {
        s % m
    } else {
        let a: i64 = -(s as i64);
        let q = (a % (m as i64)) as i32;
        proof {
            let k = (a as int) / (m as int);
            let r = (a as int) % (m as int);
            vstd::arithmetic::div_mod::lemma_fundamental_div_mod(a as int, m as int);
            let mi = m as int;
            let ai = a as int;
            assert(0 <= r < mi);
            if r == 0 {
                assert(-ai == (-k) * mi + 0) by (nonlinear_arith)
                    requires
                        ai == mi * k + r,
                        r == 0,
                ;
                vstd::arithmetic::div_mod::lemma_fundamental_div_mod_converse(-ai, mi, -k, 0);
            } else {
                assert(-ai == (-k - 1) * mi + (mi - r)) by (nonlinear_arith)
                    requires
                        ai == mi * k + r,
                ;
                vstd::arithmetic::div_mod::lemma_fundamental_div_mod_converse(-ai, mi, -k - 1, mi - r);
            }
        }
        if q == 0 {
            0
        } else {
            m - q
        }
    }
}


/// A sprite line with no sprite pixel.
fn empty_obj_line() -> (r: Vec<(u16, u8, bool)>)
    ensures
        r@ == Seq::new(240, |x: int| (0x8000u16, 4u8, false)),
{
    let mut v: Vec<(u16, u8, bool)> = Vec::new();
    let mut i: usize = 0;
    while i < 240
        invariant
            i <= 240,
            v@ == Seq::new(i as nat, |x: int| (0x8000u16, 4u8, false)),
        decreases 240 - i,
    {
        v.push((0x8000u16, 4u8, false));
        i += 1;
        assert(v@ =~= Seq::new(i as nat, |x: int| (0x8000u16, 4u8, false)));
    }
    v
}


// ---------------------------------------------------------------------------
// Alpha blending
// ---------------------------------------------------------------------------

/// `(p * eva + q * evb) / 16`, limited to 31: one channel of a blend of `p`
/// (weighted by `eva` sixteenths) with `q` (by `evb`).
pub open spec fn weighted(p: int, q: int, eva: int, evb: int) -> int {
    let m = (p * eva + q * evb) / 16;
    if m > 31 { 31 } else { m }
}

/// The three 5-bit channels survive packing into a 32-bit colour.
proof fn lemma_chan_pack(r: u32, g: u32, b: u32)
    requires
        r < 32,
        g < 32,
        b < 32,
    ensures
        chan(pack_rgb(r, g, b), 0) == r,
        chan(pack_rgb(r, g, b), 8) == g,
        chan(pack_rgb(r, g, b), 16) == b,
{
    assert({
        &&& ((((0xFF000000u32 | (((b << 3u32) | (b >> 2u32)) << 16u32) | (((g << 3u32) | (g >> 2u32)) << 8u32)
            | ((r << 3u32) | (r >> 2u32))) >> 0u32) & 0xFF) >> 3u32) == r
        &&& ((((0xFF000000u32 | (((b << 3u32) | (b >> 2u32)) << 16u32) | (((g << 3u32) | (g >> 2u32)) << 8u32)
            | ((r << 3u32) | (r >> 2u32))) >> 8u32) & 0xFF) >> 3u32) == g
        &&& ((((0xFF000000u32 | (((b << 3u32) | (b >> 2u32)) << 16u32) | (((g << 3u32) | (g >> 2u32)) << 8u32)
            | ((r << 3u32) | (r >> 2u32))) >> 16u32) & 0xFF) >> 3u32) == b
    }) by (bit_vector)
        requires
            r < 32,
            g < 32,
            b < 32,
    ;
}

/// Alpha blending of two displayed colours (each made from a BGR555 value)
/// weights each channel of the first by `eva` and of the second by `evb`
/// sixteenths, limited to 31; so full weight on the first alone gives the
/// first colour back, and full weight on the second alone the second.
pub proof fn lemma_alpha_blend_weights(c1: u16, c2: u16, eva: u32, evb: u32)
    requires
        eva <= 16,
        evb <= 16,
    ensures
        ({
            let r1 = (c1 & 0x1F) as int;
            let g1 = ((c1 >> 5u16) & 0x1F) as int;
            let b1 = ((c1 >> 10u16) & 0x1F) as int;
            let r2 = (c2 & 0x1F) as int;
            let g2 = ((c2 >> 5u16) & 0x1F) as int;
            let b2 = ((c2 >> 10u16) & 0x1F) as int;
            alpha_blend_spec(rgb5_spec(c1), rgb5_spec(c2), eva, evb) == pack_rgb(
                weighted(r1, r2, eva as int, evb as int) as u32,
                weighted(g1, g2, eva as int, evb as int) as u32,
                weighted(b1, b2, eva as int, evb as int) as u32,
            )
        }),
        alpha_blend_spec(rgb5_spec(c1), rgb5_spec(c2), 16, 0) == rgb5_spec(c1),
        alpha_blend_spec(rgb5_spec(c1), rgb5_spec(c2), 0, 16) == rgb5_spec(c2),
{
    let r1 = (c1 & 0x1F) as u32;
    let g1 = ((c1 >> 5u16) & 0x1F) as u32;
    let b1 = ((c1 >> 10u16) & 0x1F) as u32;
    let r2 = (c2 & 0x1F) as u32;
    let g2 = ((c2 >> 5u16) & 0x1F) as u32;
    let b2 = ((c2 >> 10u16) & 0x1F) as u32;
    assert(c1 & 0x1F < 32 && (c1 >> 5u16) & 0x1F < 32 && (c1 >> 10u16) & 0x1F < 32);
    assert(c2 & 0x1F < 32 && (c2 >> 5u16) & 0x1F < 32 && (c2 >> 10u16) & 0x1F < 32);
    lemma_chan_pack(r1, g1, b1);
    lemma_chan_pack(r2, g2, b2);
    assert(rgb5_spec(c1) == pack_rgb(r1, g1, b1));
    assert(rgb5_spec(c2) == pack_rgb(r2, g2, b2));
}

/// In alpha-blending mode, where the window allows effects and the top pixel
/// is a first target lying on a second target, the pixel shown is the blend of
/// the top colour (weighted by EVA) with the one beneath (weighted by EVB),
/// each coefficient limited to 16.
pub proof fn lemma_blend_alpha_mode(p: Ppu, st: Stack, semi: bool, win: u16, c1: u16, c2: u16)
    requires
        win & 0x20 != 0,
        (p.bldcnt >> 6u16) & 3 == 1,
        blend_target_spec(p.bldcnt, st.top_layer, false),
        blend_target_spec(p.bldcnt, st.second_layer, true),
        st.top_color == rgb5_spec(c1),
        st.second_color == rgb5_spec(c2),
    ensures
        ({
            let ea = p.bldalpha & 0x1F;
            let eb = (p.bldalpha >> 8u16) & 0x1F;
            let eva: int = if ea > 16 { 16 } else { ea as int };
            let evb: int = if eb > 16 { 16 } else { eb as int };
            blend_spec(p, st, semi, win) == pack_rgb(
                weighted((c1 & 0x1F) as int, (c2 & 0x1F) as int, eva, evb) as u32,
                weighted(((c1 >> 5u16) & 0x1F) as int, ((c2 >> 5u16) & 0x1F) as int, eva, evb) as u32,
                weighted(((c1 >> 10u16) & 0x1F) as int, ((c2 >> 10u16) & 0x1F) as int, eva, evb) as u32,
            )
        }),
{
    let eva = min16(p.bldalpha & 0x1F);
    let evb = min16((p.bldalpha >> 8u16) & 0x1F);
    lemma_alpha_blend_weights(c1, c2, eva, evb);
}

/// Brightness changes run from the colour itself to white or black: a
/// coefficient of 0 leaves a displayed colour as it is, and a full coefficient
/// of 16 gives white when brightening and black when darkening.
pub proof fn lemma_brightness_ends(c: u16)
    ensures
        brighten_spec(rgb5_spec(c), 0) == rgb5_spec(c),
        brighten_spec(rgb5_spec(c), 16) == pack_rgb(31, 31, 31),
        darken_spec(rgb5_spec(c), 0) == rgb5_spec(c),
        darken_spec(rgb5_spec(c), 16) == pack_rgb(0, 0, 0),
{
    let r = (c & 0x1F) as u32;
    let g = ((c >> 5u16) & 0x1F) as u32;
    let b = ((c >> 10u16) & 0x1F) as u32;
    assert(c & 0x1F < 32 && (c >> 5u16) & 0x1F < 32 && (c >> 10u16) & 0x1F < 32);
    lemma_chan_pack(r, g, b);
    assert(rgb5_spec(c) == pack_rgb(r, g, b));
}

} // verus!
